//! Prompt construction and parsing of the model's reply into base names.

use vstd::prelude::*;
use vstd::string::StringExecFns;
use vstd::utf8::encode_utf8;
use crate::json::{json_parse, parse_json, string_list_field, string_list_of, JsonValue};
use crate::llm::{personality_label, SuggestionRequest};
use crate::text::{
    chars_of, decimal, substring, find, find_from, lowercase, push_decimal, remove_spaces, rfind,
    rfind_char, to_lowercase, trim, trimmed, without_spaces, alphanumeric, matches_at,
    is_alphanumeric, str_eq,
};

verus! {

/// The system prompt: the model's role and the required output format.
pub const SYSTEM_PROMPT: &'static str = r#"You are a world-class startup branding consultant. Your specialty is creating short, memorable, brandable domain names.

RULES:
- Suggest ONLY the base name (no TLD like .com, .io, etc.)
- Names must be easy to spell and pronounce
- Avoid hyphens and numbers
- Prefer invented/portmanteau words, clever combinations, or evocative single words
- Each name should be unique and distinct from the others

OUTPUT FORMAT:
You MUST respond with a valid JSON object and nothing else. No markdown, no explanation.
The JSON must have exactly one key "suggestions" containing an array of strings.

Example:
{"suggestions": ["nexora", "brindle", "vertiq", "cloudpeak", "luminary"]}"#;

/// Build the system prompt that establishes the model's role and output format.
pub fn build_system_prompt() -> (r: String)
    ensures
        r@ == SYSTEM_PROMPT@,
{
    String::from_str(SYSTEM_PROMPT)
}

/// The user prompt for a request.
pub open spec fn user_prompt(req: SuggestionRequest) -> Seq<char> {
    "Generate "@ + decimal(req.count as nat)
        + " brandable domain name ideas for the following:\n\nKEYWORDS: "@ + req.keywords@
        + "\nINDUSTRY: "@ + req.industry@ + "\nBRAND PERSONALITY: "@ + personality_label(
        req.personality,
    ) + "\nMAX CHARACTERS PER NAME: "@ + decimal(req.max_length as nat)
        + "\n\nRemember: output ONLY a JSON object with a \"suggestions\" array. No other text."@
}

/// Build the user prompt from a `SuggestionRequest`.
pub fn build_user_prompt(req: &SuggestionRequest) -> (r: String)
    ensures
        r@ == user_prompt(*req),
{
    let mut s = String::from_str("Generate ");
    push_decimal(&mut s, req.count);
    s.append(" brandable domain name ideas for the following:\n\nKEYWORDS: ");
    s.append(req.keywords.as_str());
    s.append("\nINDUSTRY: ");
    s.append(req.industry.as_str());
    s.append("\nBRAND PERSONALITY: ");
    s.append(req.personality.label());
    s.append("\nMAX CHARACTERS PER NAME: ");
    push_decimal(&mut s, req.max_length);
    s.append("\n\nRemember: output ONLY a JSON object with a \"suggestions\" array. No other text.");
    s
}


/// A name as it is cleaned up: trimmed, lowercased, spaces removed.
pub open spec fn clean_name(s: Seq<char>) -> Seq<char> {
    without_spaces(lowercase(trimmed(s)))
}

/// Length of a name in UTF-8 bytes (`str::len`).
pub open spec fn byte_len(s: Seq<char>) -> nat {
    encode_utf8(s).len()
}

/// A cleaned name from a JSON reply is kept when it is a base name: non-empty,
/// at most 30 bytes long, and without a '.' (no TLD).
pub open spec fn name_fits(c: Seq<char>) -> bool {
    c.len() > 0 && byte_len(c) <= 30 && !c.contains('.')
}

fn has_dot(s: &str) -> (r: bool)
    ensures
        r == s@.contains('.'),
{
    let v = chars_of(s);
    for i in 0..v.len()
        invariant
            v@ == s@,
            forall|j: int| 0 <= j < i ==> v@[j] != '.',
    {
        if v[i] == '.' {
            assert(s@[i as int] == '.');
            return true;
        }
    }
    false
}

/// The kept, cleaned names of a JSON `suggestions` list, in order.
pub open spec fn clean_names(list: Seq<Seq<char>>) -> Seq<Seq<char>>
    decreases list.len(),
{
    if list.len() == 0 {
        Seq::empty()
    } else {
        let prev = clean_names(list.drop_last());
        let c = clean_name(list.last());
        if name_fits(c) {
            prev.push(c)
        } else {
            prev
        }
    }
}

/// The names that a parsed JSON reply yields: `None` unless the reply was
/// valid JSON holding a `suggestions` list of strings.
pub open spec fn suggestions_of(parsed: Option<JsonValue>) -> Option<Seq<Seq<char>>> {
    match parsed {
        Some(v) => match string_list_field(v, "suggestions"@) {
            Some(l) => Some(clean_names(l)),
            None => None,
        },
        None => None,
    }
}

/// The names that the text of a JSON reply yields.
pub open spec fn json_suggestions(text: Seq<char>) -> Option<Seq<Seq<char>>> {
    suggestions_of(json_parse(trimmed(text)))
}

fn clean(s: &str) -> (r: String)
    ensures
        r@ == clean_name(s@),
{
    let t = trim(s);
    let l = to_lowercase(t);
    remove_spaces(l.as_str())
}

/// The cleaned names of a list, keeping those that fit.
pub fn clean_all(list: &Vec<String>) -> (r: Vec<String>)
    ensures
        r.deep_view() == clean_names(list.deep_view()),
{
    let mut out: Vec<String> = Vec::new();
    for i in 0..list.len()
        invariant
            out.deep_view() == clean_names(list.deep_view().take(i as int)),
    {
        assert(list.deep_view().take(i + 1).drop_last() =~= list.deep_view().take(i as int));
        assert(list.deep_view().take(i + 1).last() == list@[i as int]@);
        let c = clean(list[i].as_str());
        if !c.as_str().is_empty() && c.as_str().as_bytes().len() <= 30 && !has_dot(c.as_str()) {
            let ghost prev = out.deep_view();
            out.push(c);
            assert(out.deep_view() =~= prev.push(c@));
        }
    }
    assert(list.deep_view().take(list.len() as int) =~= list.deep_view());
    out
}

/// The names that a parsed JSON reply yields (see `suggestions_of`).
pub fn suggestions_from_value(parsed: &Option<JsonValue>) -> (r: Option<Vec<String>>)
    ensures
        r matches Some(l) ==> suggestions_of(*parsed) == Some(l.deep_view()),
        r is None ==> suggestions_of(*parsed) is None,
{
    match parsed {
        Some(v) => match string_list_of(v, "suggestions") {
            Some(l) => Some(clean_all(&l)),
            None => None,
        },
        None => None,
    }
}

/// Attempt to read the reply as JSON with a "suggestions" list.
fn try_parse_json(text: &str) -> (r: Option<Vec<String>>)
    ensures
        r matches Some(l) ==> json_suggestions(text@) == Some(l.deep_view()),
        r is None ==> json_suggestions(text@) is None,
{
    let parsed = parse_json(trim(text));
    suggestions_from_value(&parsed)
}


/// The trimmed content of the first "```json" fence that is closed.
pub open spec fn fenced_json(t: Seq<char>) -> Option<Seq<char>> {
    match find_from(t, "```json"@, 0) {
        Some(s) => {
            let c = s + "```json"@.len();
            match find_from(t, "```"@, c) {
                Some(e) => Some(trimmed(t.subrange(c, e))),
                None => None,
            }
        },
        None => None,
    }
}

/// The trimmed content of the first closed "```" fence, if it opens with '{'.
pub open spec fn fenced_object(t: Seq<char>) -> Option<Seq<char>> {
    match find_from(t, "```"@, 0) {
        Some(s) => {
            let c = s + "```"@.len();
            match find_from(t, "```"@, c) {
                Some(e) => {
                    let inner = trimmed(t.subrange(c, e));
                    if inner.len() > 0 && inner[0] == '{' {
                        Some(inner)
                    } else {
                        None
                    }
                },
                None => None,
            }
        },
        None => None,
    }
}

/// The text from the first '{' through the last '}', if the last '}'
/// follows the first '{'.
pub open spec fn bare_object(t: Seq<char>) -> Option<Seq<char>> {
    match (find_from(t, seq!['{'], 0), rfind_char(t, '}')) {
        (Some(s), Some(e)) => if e > s {
            Some(t.subrange(s, e + 1))
        } else {
            None
        },
        _ => None,
    }
}

/// The JSON block embedded in a reply: a "```json" fence, else a "```"
/// fence holding an object, else the outermost braces.
pub open spec fn json_block(t: Seq<char>) -> Option<Seq<char>> {
    if fenced_json(t) is Some {
        fenced_json(t)
    } else if fenced_object(t) is Some {
        fenced_object(t)
    } else {
        bare_object(t)
    }
}

/// Extract a JSON block from markdown-style ```json ... ``` fences or bare { ... }.
pub fn extract_json_block(text: &str) -> (r: Option<String>)
    ensures
        r matches Some(b) ==> json_block(text@) == Some(b@),
        r is None ==> json_block(text@) is None,
{
    let v = chars_of(text);
    let json_fence = chars_of("```json");
    let fence = chars_of("```");
    let n = v.len();
    if let Some(start) = find(&v, &json_fence, 0) {
        proof {
            crate::text::lemma_find_from_bounds(v@, json_fence@, 0);
        }
        let content_start = start + json_fence.len();
        if let Some(end) = find(&v, &fence, content_start) {
            proof {
                crate::text::lemma_find_from_bounds(v@, fence@, content_start as int);
            }
            let inner = substring(&v, content_start, end);
            return Some(String::from_str(trim(inner.as_str())));
        }
    }
    if let Some(start) = find(&v, &fence, 0) {
        proof {
            crate::text::lemma_find_from_bounds(v@, fence@, 0);
        }
        let content_start = start + fence.len();
        if let Some(end) = find(&v, &fence, content_start) {
            proof {
                crate::text::lemma_find_from_bounds(v@, fence@, content_start as int);
            }
            let inner = substring(&v, content_start, end);
            let t = trim(inner.as_str());
            let tv = chars_of(t);
            if tv.len() > 0 && tv[0] == '{' {
                return Some(String::from_str(t));
            }
        }
    }
    let open = vec!['{'];
    assert(open@ =~= seq!['{']);
    if let Some(start) = find(&v, &open, 0) {
        if let Some(end) = rfind(&v, '}') {
            proof {
                crate::text::lemma_find_from_bounds(v@, open@, 0);
                crate::text::lemma_rfind_char_bounds(v@, '}');
            }
            if end > start {
                return Some(substring(&v, start, end + 1));
            }
        }
    }
    None
}


/// A cleaned quoted string is kept when it is non-empty, at most 30 bytes,
/// not the word "suggestions", a base name without '.', and made of
/// alphanumeric characters only.
pub open spec fn keep_quoted(c: Seq<char>) -> bool {
    &&& c.len() > 0
    &&& byte_len(c) <= 30
    &&& c != "suggestions"@
    &&& !c.contains('.')
    &&& forall|i: int| 0 <= i < c.len() ==> alphanumeric(#[trigger] c[i])
}

/// The names found in double-quoted stretches of `t` from index `pos` on:
/// each stretch runs from a '"' to the next '"' or the end of the text.
pub open spec fn quoted_from(t: Seq<char>, pos: int) -> Seq<Seq<char>>
    decreases t.len() - pos,
{
    if pos < 0 || pos >= t.len() {
        Seq::empty()
    } else {
        match find_from(t, seq!['"'], pos) {
            None => Seq::empty(),
            Some(q) => {
                let start = q + 1;
                let end = match find_from(t, seq!['"'], start) {
                    Some(e) => e,
                    None => t.len() as int,
                };
                let c = clean_name(t.subrange(start, end));
                let rest = if pos < end + 1 <= t.len() {
                    quoted_from(t, end + 1)
                } else {
                    Seq::empty()
                };
                if keep_quoted(c) {
                    seq![c] + rest
                } else {
                    rest
                }
            },
        }
    }
}

/// The names in all double-quoted stretches of `t`.
pub open spec fn quoted_names(t: Seq<char>) -> Seq<Seq<char>> {
    quoted_from(t, 0)
}

fn all_alphanumeric(s: &str) -> (r: bool)
    ensures
        r == (forall|i: int| 0 <= i < s@.len() ==> alphanumeric(#[trigger] s@[i])),
{
    let v = chars_of(s);
    for i in 0..v.len()
        invariant
            v@ == s@,
            forall|j: int| 0 <= j < i ==> alphanumeric(#[trigger] s@[j]),
    {
        if !is_alphanumeric(v[i]) {
            return false;
        }
    }
    true
}

/// Last-resort extraction: the names in all double-quoted stretches.
pub fn extract_quoted_strings(text: &str) -> (r: Vec<String>)
    ensures
        r.deep_view() == quoted_names(text@),
{
    let v = chars_of(text);
    let n = v.len();
    let quote = vec!['"'];
    assert(quote@ =~= seq!['"']);
    let mut out: Vec<String> = Vec::new();
    let mut pos: usize = 0;
    assert(out.deep_view() + quoted_from(v@, 0) =~= quoted_from(v@, 0));
    loop
        invariant
            v@ == text@,
            n == v@.len(),
            quote@ == seq!['"'],
            pos <= n,
            quoted_from(v@, 0) == out.deep_view() + quoted_from(v@, pos as int),
        decreases n - pos,
    {
        if pos >= n {
            assert(out.deep_view() + quoted_from(v@, pos as int) =~= out.deep_view());
            return out;
        }
        match find(&v, &quote, pos) {
            None => {
                assert(out.deep_view() + quoted_from(v@, pos as int) =~= out.deep_view());
                return out;
            },
            Some(q) => {
                proof {
                    crate::text::lemma_find_from_bounds(v@, quote@, pos as int);
                }
                let start = q + 1;
                let found = find(&v, &quote, start);
                proof {
                    crate::text::lemma_find_from_bounds(v@, quote@, start as int);
                }
                let end = match found {
                    Some(e) => e,
                    None => n,
                };
                let word = substring(&v, start, end);
                let c = clean(word.as_str());
                let ghost prev = out.deep_view();
                let ghost rest = quoted_from(v@, end + 1);
                if !c.as_str().is_empty() && c.as_str().as_bytes().len() <= 30 && !str_eq(
                    c.as_str(),
                    "suggestions",
                ) && !has_dot(c.as_str()) && all_alphanumeric(c.as_str()) {
                    out.push(c);
                    assert(out.deep_view() =~= prev.push(c@));
                    assert(prev + (seq![c@] + rest) =~= out.deep_view() + rest);
                }
                if end >= n {
                    assert(quoted_from(v@, (end + 1) as int) =~= Seq::<Seq<char>>::empty());
                    assert(out.deep_view() + rest =~= out.deep_view());
                    return out;
                }
                pos = end + 1;
            },
        }
    }
}


/// The names read from a block embedded in the reply, if any.
pub open spec fn block_suggestions(t: Seq<char>) -> Option<Seq<Seq<char>>> {
    match json_block(t) {
        Some(b) => json_suggestions(b),
        None => None,
    }
}

/// The names a reply yields: the reply read as JSON when that gives a
/// non-empty list, else the embedded JSON block when that gives a non-empty
/// list, else the quoted names when there are any; `None` when all three
/// come up empty.
pub open spec fn parsed_suggestions(t: Seq<char>) -> Option<Seq<Seq<char>>> {
    if json_suggestions(t) matches Some(l) && l.len() > 0 {
        json_suggestions(t)
    } else if block_suggestions(t) matches Some(l) && l.len() > 0 {
        block_suggestions(t)
    } else if quoted_names(t).len() > 0 {
        Some(quoted_names(t))
    } else {
        None
    }
}

/// The error message when a reply yields no names.
pub open spec fn unparsable_message(t: Seq<char>) -> Seq<char> {
    "Could not parse any domain suggestions from LLM response:\n"@ + t
}

/// Parse the model's reply into a list of domain name suggestions.
///
/// Tries structured JSON first, then an embedded JSON block, then quoted
/// strings.
pub fn parse_suggestions(response: &str) -> (r: Result<Vec<String>, String>)
    ensures
        r matches Ok(l) ==> parsed_suggestions(response@) == Some(l.deep_view()),
        r matches Err(e) ==> parsed_suggestions(response@) is None && e@ == unparsable_message(
            response@,
        ),
{
    if let Some(parsed) = try_parse_json(response) {
        if parsed.len() > 0 {
            return Ok(parsed);
        }
    }
    let block = extract_json_block(response);
    if let Some(json_str) = block {
        if let Some(parsed) = try_parse_json(json_str.as_str()) {
            if parsed.len() > 0 {
                return Ok(parsed);
            }
        }
    }
    let fallback = extract_quoted_strings(response);
    if fallback.len() > 0 {
        return Ok(fallback);
    }
    let mut msg = String::from_str("Could not parse any domain suggestions from LLM response:\n");
    msg.append(response);
    Err(msg)
}


/// A text with its spaces removed holds no space.
proof fn lemma_no_spaces_left(s: Seq<char>)
    ensures
        !without_spaces(s).contains(' '),
    decreases s.len(),
{
    if s.len() > 0 {
        lemma_no_spaces_left(s.drop_last());
        let w = without_spaces(s.drop_last());
        if s.last() != ' ' {
            assert forall|i: int| 0 <= i < w.push(s.last()).len() implies w.push(s.last())[i] != ' ' by {
                if i < w.len() {
                    assert(!w.contains(' '));
                    assert(w.push(s.last())[i] == w[i]);
                }
            }
        }
    }
}

/// When the reply as a whole gives no names but its embedded JSON block
/// (a "```json" fence, a "```" fence opening with '{', or the outermost
/// braces) holds a non-empty suggestions list, the result is exactly that
/// list's cleaned names; the quoted-string fallback is not used.
pub proof fn law_embedded_block_used(t: Seq<char>, b: Seq<char>, l: Seq<Seq<char>>)
    requires
        !(suggestions_of(json_parse(trimmed(t))) matches Some(x) && x.len() > 0),
        json_block(t) == Some(b),
        suggestions_of(json_parse(trimmed(b))) == Some(l),
        l.len() > 0,
    ensures
        parsed_suggestions(t) == Some(l),
{
}

/// A reply that is not a suggestions object as a whole but holds a
/// "```json" fence, closed by "```", whose content has a non-empty
/// suggestions list gives exactly that list, whatever text (quoted or not)
/// comes before the fence or after it.
pub proof fn law_fenced_json_block_used(
    t: Seq<char>,
    pre: Seq<char>,
    inner: Seq<char>,
    post: Seq<char>,
    l: Seq<Seq<char>>,
)
    requires
        t == pre + "```json"@ + inner + "```"@ + post,
        forall|i: int| 0 <= i < pre.len() ==> !#[trigger] matches_at(t, "```json"@, i),
        forall|i: int| pre.len() + 7 <= i < pre.len() + 7 + inner.len() ==> !#[trigger] matches_at(t, "```"@, i),
        !(suggestions_of(json_parse(trimmed(t))) matches Some(x) && x.len() > 0),
        suggestions_of(json_parse(trimmed(inner))) == Some(l),
        l.len() > 0,
    ensures
        parsed_suggestions(t) == Some(l),
{
    reveal_strlit("```json");
    reveal_strlit("```");
    let p = pre.len() as int;
    let c = p + 7;
    let e = c + inner.len();
    assert(t.subrange(p, p + 7) =~= "```json"@);
    assert(matches_at(t, "```json"@, p));
    crate::text::lemma_find_from_first(t, "```json"@, 0, p);
    assert(t.subrange(e, e + 3) =~= "```"@);
    assert(matches_at(t, "```"@, e));
    crate::text::lemma_find_from_first(t, "```"@, c, e);
    assert(t.subrange(c, e) =~= inner);
    assert(fenced_json(t) == Some(trimmed(inner)));
    crate::text::lemma_trimmed_idempotent(inner);
    assert(json_block(t) == Some(trimmed(inner)));
}

/// A reply that reads as JSON with a non-empty suggestions list gives
/// exactly that list's cleaned names.
pub proof fn law_whole_json_reply_used(t: Seq<char>, l: Seq<Seq<char>>)
    requires
        suggestions_of(json_parse(trimmed(t))) == Some(l),
        l.len() > 0,
    ensures
        parsed_suggestions(t) == Some(l),
{
}

/// When neither the whole reply nor an embedded block gives names, the
/// result is the quoted names, and it is an error only when there are none.
pub proof fn law_quoted_fallback_used(t: Seq<char>)
    requires
        !(suggestions_of(json_parse(trimmed(t))) matches Some(x) && x.len() > 0),
        !(json_block(t) matches Some(b) && suggestions_of(json_parse(trimmed(b))) matches Some(x) && x.len() > 0),
    ensures
        quoted_names(t).len() > 0 ==> parsed_suggestions(t) == Some(quoted_names(t)),
        quoted_names(t).len() == 0 ==> parsed_suggestions(t) is None,
{
}

/// The names kept from a suggestions list are exactly its entries trimmed,
/// lowercased and stripped of spaces, in order of the list, that are
/// non-empty, at most 30 bytes and without a '.': every such entry is kept,
/// and every kept name comes from an entry.
pub proof fn law_clean_names_kept(list: Seq<Seq<char>>, i: int)
    requires
        0 <= i < list.len(),
    ensures
        ({
            let c = without_spaces(lowercase(trimmed(list[i])));
            c.len() > 0 && encode_utf8(c).len() <= 30 && !c.contains('.') ==> clean_names(list).contains(c)
        }),
        forall|k: int| 0 <= k < clean_names(list).len() ==> exists|j: int|
            0 <= j < list.len() && #[trigger] clean_names(list)[k] == without_spaces(lowercase(trimmed(#[trigger] list[j]))),
    decreases list.len(),
{
    let prev = clean_names(list.drop_last());
    let n = list.len() - 1;
    if i < n {
        assert(list.drop_last()[i] == list[i]);
        law_clean_names_kept(list.drop_last(), i);
    } else if list.len() > 1 {
        law_clean_names_kept(list.drop_last(), 0);
    }
    let c = without_spaces(lowercase(trimmed(list[i])));
    if c.len() > 0 && encode_utf8(c).len() <= 30 && !c.contains('.') {
        if i < n {
            let k = choose|k: int| 0 <= k < prev.len() && prev[k] == c;
            assert(clean_names(list)[k] == prev[k]);
        } else {
            assert(clean_names(list)[prev.len() as int] == c);
        }
    }
    assert forall|k: int| 0 <= k < clean_names(list).len() implies exists|j: int|
        0 <= j < list.len() && #[trigger] clean_names(list)[k] == without_spaces(lowercase(trimmed(#[trigger] list[j]))) by {
        if k < prev.len() {
            assert(clean_names(list)[k] == prev[k]);
            let j = choose|j: int| 0 <= j < list.drop_last().len() && #[trigger] prev[k] == without_spaces(lowercase(trimmed(#[trigger] list.drop_last()[j])));
            assert(list[j] == list.drop_last()[j]);
        } else {
            assert(clean_names(list)[k] == without_spaces(lowercase(trimmed(list[n]))));
        }
    }
}

/// The first double-quoted stretch of a reply gives the first quoted name:
/// when the text before the first '"' and the text up to the next '"' hold
/// no other '"', and that text, trimmed, lowercased and without spaces, is a
/// non-empty alphanumeric name of at most 30 bytes other than "suggestions",
/// it is the first quoted name.
pub proof fn law_first_quoted_name(t: Seq<char>, pre: Seq<char>, w: Seq<char>, post: Seq<char>)
    requires
        t == pre + seq!['"'] + w + seq!['"'] + post,
        !pre.contains('"'),
        !w.contains('"'),
        ({
            let c = without_spaces(lowercase(trimmed(w)));
            &&& c.len() > 0
            &&& encode_utf8(c).len() <= 30
            &&& c != "suggestions"@
            &&& !c.contains('.')
            &&& forall|i: int| 0 <= i < c.len() ==> alphanumeric(#[trigger] c[i])
        }),
    ensures
        quoted_names(t).len() > 0,
        quoted_names(t)[0] == without_spaces(lowercase(trimmed(w))),
{
    let q = pre.len() as int;
    let start = q + 1;
    let end = start + w.len();
    assert(t[q] == '"');
    assert(t.subrange(q, q + 1) =~= seq!['"']);
    assert forall|i: int| 0 <= i < q implies !#[trigger] matches_at(t, seq!['"'], i) by {
        if matches_at(t, seq!['"'], i) {
            assert(t.subrange(i, i + 1)[0] == t[i]);
            assert(t[i] == pre[i]);
        }
    }
    crate::text::lemma_find_from_first(t, seq!['"'], 0, q);
    assert(t.subrange(end, end + 1) =~= seq!['"']);
    assert forall|i: int| start <= i < end implies !#[trigger] matches_at(t, seq!['"'], i) by {
        if matches_at(t, seq!['"'], i) {
            assert(t.subrange(i, i + 1)[0] == t[i]);
            assert(t[i] == w[i - start]);
        }
    }
    crate::text::lemma_find_from_first(t, seq!['"'], start, end);
    assert(t.subrange(start, end) =~= w);
}

proof fn lemma_clean_names_fit(list: Seq<Seq<char>>)
    ensures
        forall|i: int| 0 <= i < clean_names(list).len() ==> name_fits(#[trigger] clean_names(list)[i])
            && !clean_names(list)[i].contains(' '),
    decreases list.len(),
{
    if list.len() > 0 {
        lemma_clean_names_fit(list.drop_last());
        let prev = clean_names(list.drop_last());
        let c = clean_name(list.last());
        lemma_no_spaces_left(lowercase(trimmed(list.last())));
        if name_fits(c) {
            assert forall|i: int| 0 <= i < clean_names(list).len() implies name_fits(
                #[trigger] clean_names(list)[i],
            ) && !clean_names(list)[i].contains(' ') by {
                if i < prev.len() {
                    assert(clean_names(list)[i] == prev[i]);
                }
            }
        }
    }
}

proof fn lemma_quoted_fit(t: Seq<char>, pos: int)
    ensures
        forall|i: int| 0 <= i < quoted_from(t, pos).len() ==> keep_quoted(#[trigger] quoted_from(t, pos)[i])
            && !quoted_from(t, pos)[i].contains(' '),
    decreases t.len() - pos,
{
    if 0 <= pos < t.len() {
        crate::text::lemma_find_from_bounds(t, seq!['"'], pos);
        if let Some(q) = find_from(t, seq!['"'], pos) {
            let start = q + 1;
            crate::text::lemma_find_from_bounds(t, seq!['"'], start);
            let end = match find_from(t, seq!['"'], start) {
                Some(e) => e,
                None => t.len() as int,
            };
            if pos < end + 1 <= t.len() {
                lemma_quoted_fit(t, end + 1);
            }
            let c = clean_name(t.subrange(start, end));
            lemma_no_spaces_left(lowercase(trimmed(t.subrange(start, end))));
            let rest = if pos < end + 1 <= t.len() {
                quoted_from(t, end + 1)
            } else {
                Seq::empty()
            };
            if keep_quoted(c) {
                assert forall|i: int| 0 <= i < quoted_from(t, pos).len() implies keep_quoted(
                    #[trigger] quoted_from(t, pos)[i],
                ) && !quoted_from(t, pos)[i].contains(' ') by {
                    if i > 0 {
                        assert(quoted_from(t, pos)[i] == rest[i - 1]);
                    }
                }
            }
        }
    }
}

/// A reply that yields names yields at least one, and every name is a base
/// name: non-empty, at most 30 bytes long, without a '.' and without spaces.
pub proof fn law_parsed_names_fit(t: Seq<char>)
    ensures
        parsed_suggestions(t) matches Some(l) ==> l.len() > 0 && forall|i: int|
            0 <= i < l.len() ==> name_fits(#[trigger] l[i]) && !l[i].contains(' '),
{
    if let Some(l) = json_suggestions(t) {
        assert(json_parse(trimmed(t)) matches Some(v) && string_list_field(v, "suggestions"@) matches Some(x) && l == clean_names(x));
        let x = string_list_field(json_parse(trimmed(t))->0, "suggestions"@)->0;
        lemma_clean_names_fit(x);
    }
    if let Some(b) = json_block(t) {
        if let Some(l) = json_suggestions(b) {
            let x = string_list_field(json_parse(trimmed(b))->0, "suggestions"@)->0;
            lemma_clean_names_fit(x);
        }
    }
    lemma_quoted_fit(t, 0);
}

} // verus!

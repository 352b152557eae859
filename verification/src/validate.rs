//! Validation and sanitization of one proposed card: content rules, length
//! limits, the cloze-deletion structure check, and markup/tag cleaning.

use vstd::prelude::*;
use crate::parse::AIGeneratedCard;
use crate::parse::CardType;
use crate::parse::CardView;
use crate::text::alphanumeric_char;
use crate::text::push_char;
use crate::text::spec_dec_nat;
use crate::text::spec_trim;
use crate::text::whitespace_char;
use crate::text::dec_u64;
use crate::text::lemma_blank_iff_all_whitespace;
use crate::text::lemma_trim_as_subrange;

verus! {

/// Maximum length for card fields (in characters).
pub const MAX_FIELD_LENGTH: usize = 100000;

/// Result of card validation.
#[derive(Debug, Clone, PartialEq, Eq)]
pub struct ValidationResult {
    /// Whether the card is valid.
    pub is_valid: bool,
    /// List of validation issues (warnings or errors).
    pub issues: Vec<ValidationIssue>,
    /// The sanitized card (if valid).
    pub sanitized_card: Option<AIGeneratedCard>,
}

/// A validation issue found in a card.
#[derive(Debug, Clone, PartialEq, Eq)]
pub struct ValidationIssue {
    pub severity: IssueSeverity,
    pub message: String,
}

/// Severity of a validation issue.
#[derive(Debug, Clone, Copy, PartialEq, Eq, Structural)]
pub enum IssueSeverity {
    /// Informational - card is still valid.
    Info,
    /// Warning - card is valid but may have issues.
    Warning,
    /// Error - card is invalid.
    Error,
}

impl ValidationResult {
    /// A valid outcome with no issues.
    pub fn valid(card: AIGeneratedCard) -> (r: Self)
        ensures
            r.is_valid,
            r.issues@.len() == 0,
            r.sanitized_card == Some(card),
    {
        Self { is_valid: true, issues: Vec::new(), sanitized_card: Some(card) }
    }

    /// A valid outcome carrying non-fatal issues.
    pub fn valid_with_warnings(card: AIGeneratedCard, issues: Vec<ValidationIssue>) -> (r: Self)
        ensures
            r.is_valid,
            r.issues == issues,
            r.sanitized_card == Some(card),
    {
        Self { is_valid: true, issues, sanitized_card: Some(card) }
    }

    /// An invalid outcome with no sanitized card.
    pub fn invalid(issues: Vec<ValidationIssue>) -> (r: Self)
        ensures
            !r.is_valid,
            r.issues == issues,
            r.sanitized_card is None,
    {
        Self { is_valid: false, issues, sanitized_card: None }
    }
}

/// What `ammonia::clean` leaves of the given text: markup stripped down to a
/// conservative safe subset, a function of the text alone.
pub uninterp spec fn clean_of(s: Seq<char>) -> Seq<char>;

/// Relies on ammonia::clean: sanitizes HTML with the default conservative
/// settings, removing scripts, styles and unsafe attributes while keeping
/// benign formatting; the result depends on the input text alone.
#[verifier::external_body]
fn clean_html(s: &str) -> (r: String)
    ensures
        r@ == clean_of(s@),
{
    ammonia::clean(s)
}

pub open spec fn cloze_digit(c: char) -> bool {
    '0' <= c && c <= '9'
}

/// A cloze deletion inside `s`: `{{c` at `i`, at least one digit up to `j`,
/// `::` at `j`, a body free of line breaks, and `}}` at `k`.
pub open spec fn cloze_span(s: Seq<char>, i: int, j: int, k: int) -> bool {
    &&& 0 <= i
    &&& i + 3 < j
    &&& j + 2 <= k
    &&& k + 2 <= s.len()
    &&& s[i] == '{'
    &&& s[i + 1] == '{'
    &&& s[i + 2] == 'c'
    &&& forall|t: int| i + 3 <= t < j ==> cloze_digit(s[t])
    &&& s[j] == ':'
    &&& s[j + 1] == ':'
    &&& forall|t: int| j + 2 <= t < k ==> s[t] != '\n'
    &&& s[k] == '}'
    &&& s[k + 1] == '}'
}

/// A cloze deletion starting at position `i`.
pub open spec fn cloze_span_at(s: Seq<char>, i: int) -> bool {
    exists|j: int, k: int| cloze_span(s, i, j, k)
}

/// Whether `s` contains at least one cloze deletion.
pub open spec fn has_cloze(s: Seq<char>) -> bool {
    exists|i: int| cloze_span_at(s, i)
}

/// Scans for a `}}` closing a cloze body starting at `from`, with no line
/// break in between.
fn find_cloze_close(s: &str, from: usize, n: usize) -> (r: Option<usize>)
    requires
        n == s@.len(),
        from <= n,
    ensures
        match r {
            Some(k) => {
                &&& from <= k
                &&& k + 2 <= n
                &&& s@[k as int] == '}'
                &&& s@[k + 1] == '}'
                &&& forall|t: int| from <= t < k ==> s@[t] != '\n'
            },
            None => forall|k: int|
                from <= k && k + 2 <= n && (#[trigger] s@[k]) == '}' && s@[k + 1] == '}'
                    ==> exists|t: int| from <= t < k && (#[trigger] s@[t]) == '\n',
        },
{
    let mut t: usize = from;
    while n - t > 1
        invariant
            from <= t,
            n == s@.len(),
            t <= n,
            forall|u: int| from <= u < t ==> s@[u] != '\n',
            forall|u: int|
                from <= u < t ==> !((#[trigger] s@[u]) == '}' && u + 1 < n && s@[u + 1] == '}'),
        decreases n - t,
    {
        if s.get_char(t) == '}' && s.get_char(t + 1) == '}' {
            return Some(t);
        }
        if s.get_char(t) == '\n' {
            proof {
                assert forall|k: int|
                    from <= k && k + 2 <= n && (#[trigger] s@[k]) == '}' && s@[k + 1]
                        == '}' implies exists|u: int| from <= u < k && (#[trigger] s@[u]) == '\n' by {
                    if k <= t {
                        assert(false);
                    } else {
                        assert(from <= t < k && s@[t as int] == '\n');
                    }
                }
            }
            return None;
        }
        t += 1;
    }
    proof {
        assert forall|k: int|
            from <= k && k + 2 <= n && (#[trigger] s@[k]) == '}' && s@[k + 1] == '}' implies exists|
            u: int,
        | from <= u < k && (#[trigger] s@[u]) == '\n' by {
            assert(k + 1 < n);
            assert(k < t);
            assert(false);
        }
    }
    None
}

/// Decides whether a cloze deletion starts at position `i`, which already
/// carries the `{{c` opener.
fn check_cloze_at(s: &str, i: usize, n: usize) -> (r: bool)
    requires
        n == s@.len(),
        i + 3 <= n,
        s@[i as int] == '{',
        s@[i + 1] == '{',
        s@[i + 2] == 'c',
    ensures
        r == cloze_span_at(s@, i as int),
{
    let mut j: usize = i + 3;
    while j < n && s.get_char(j) >= '0' && s.get_char(j) <= '9'
        invariant
            i + 3 <= j <= n,
            n == s@.len(),
            forall|t: int| i + 3 <= t < j ==> cloze_digit(s@[t]),
        decreases n - j,
    {
        j += 1;
    }
    // j is now the first position after the run of digits
    if j == i + 3 || n - j <= 1 || s.get_char(j) != ':' || s.get_char(j + 1) != ':' {
        proof {
            assert forall|j2: int, k2: int| !cloze_span(s@, i as int, j2, k2) by {
                if cloze_span(s@, i as int, j2, k2) {
                    if j == i + 3 {
                        // no digit at all where the span needs one
                        assert(cloze_digit(s@[i + 3]));
                        assert(j < n ==> !cloze_digit(s@[j as int]));
                        assert(false);
                    } else {
                        // the span's separator must sit exactly at j
                        if j2 < j {
                            assert(cloze_digit(s@[j2]));
                            assert(false);
                        }
                        if j2 > j {
                            assert(j < n);
                            assert(cloze_digit(s@[j as int]));
                            assert(false);
                        }
                        assert(false);
                    }
                }
            }
        }
        return false;
    }
    match find_cloze_close(s, j + 2, n) {
        Some(k) => {
            proof {
                assert(cloze_span(s@, i as int, j as int, k as int));
            }
            true
        },
        None => {
            proof {
                assert forall|j2: int, k2: int| !cloze_span(s@, i as int, j2, k2) by {
                    if cloze_span(s@, i as int, j2, k2) {
                        if j2 < j {
                            assert(cloze_digit(s@[j2]));
                            assert(false);
                        }
                        if j2 > j {
                            assert(cloze_digit(s@[j as int]));
                            assert(false);
                        }
                        // j2 == j: find_cloze_close refused every candidate close
                        let t = choose|t: int| j + 2 <= t < k2 && s@[t] == '\n';
                        assert(s@[t] != '\n');
                        assert(false);
                    }
                }
            }
            false
        },
    }
}

/// Decides whether the text contains a cloze deletion `{{c<digits>::...}}`
/// with a line-break-free body.
pub fn find_cloze(s: &str) -> (r: bool)
    ensures
        r == has_cloze(s@),
{
    let n = s.unicode_len();
    let mut i: usize = 0;
    while n - i >= 3
        invariant
            i <= n,
            n == s@.len(),
            forall|p: int| 0 <= p < i ==> !cloze_span_at(s@, p),
        decreases n - i,
    {
        if s.get_char(i) == '{' && s.get_char(i + 1) == '{' && s.get_char(i + 2) == 'c' {
            if check_cloze_at(s, i, n) {
                return true;
            }
        } else {
            proof {
                assert forall|j2: int, k2: int| !cloze_span(s@, i as int, j2, k2) by {}
            }
        }
        i += 1;
    }
    proof {
        assert forall|p: int| !cloze_span_at(s@, p) by {
            if cloze_span_at(s@, p) {
                let (j2, k2) = choose|j2: int, k2: int| cloze_span(s@, p, j2, k2);
                assert(p + 3 < j2 && j2 + 2 <= k2 && k2 + 2 <= n);
                assert(0 <= p < i);
            }
        }
    }
    false
}

/// Whether the text is empty after trimming white space.
fn is_blank(s: &str) -> (r: bool)
    ensures
        r == (spec_trim(s@).len() == 0),
{
    let n = s.unicode_len();
    let mut i: usize = 0;
    while i < n
        invariant
            i <= n,
            n == s@.len(),
            forall|k: int| 0 <= k < i ==> whitespace_char(s@[k]),
        decreases n - i,
    {
        if !s.get_char(i).is_whitespace() {
            proof {
                lemma_blank_iff_all_whitespace(s@);
            }
            return false;
        }
        i += 1;
    }
    proof {
        lemma_blank_iff_all_whitespace(s@);
    }
    true
}

pub open spec fn space_to_underscore(c: char) -> char {
    if c == ' ' {
        '_'
    } else {
        c
    }
}

pub open spec fn keep_tag_char(c: char) -> bool {
    alphanumeric_char(c) || c == '_' || c == '-' || c == ':'
}

/// Tag sanitization: trim white space, turn interior spaces into
/// underscores, and drop every character that is not alphanumeric, `_`, `-`
/// or `:`.
pub open spec fn spec_sanitize_tag(s: Seq<char>) -> Seq<char> {
    spec_trim(s).map_values(|c: char| space_to_underscore(c)).filter(|c: char| keep_tag_char(c))
}

proof fn lemma_filter_keeps_all(s: Seq<char>)
    requires
        forall|i: int| 0 <= i < s.len() ==> keep_tag_char(#[trigger] s[i]),
    ensures
        s.filter(|c: char| keep_tag_char(c)) == s,
    decreases s.len(),
{
    reveal_with_fuel(Seq::filter, 2);
    if s.len() == 0 {
        assert(s.filter(|c: char| keep_tag_char(c)) =~= s);
    } else {
        let d = s.drop_last();
        assert(forall|i: int| 0 <= i < d.len() ==> keep_tag_char(#[trigger] d[i])) by {
            assert(forall|i: int| 0 <= i < d.len() ==> d[i] == s[i]);
        }
        lemma_filter_keeps_all(d);
        assert(s.filter(|c: char| keep_tag_char(c)) =~= d.push(s.last()));
        assert(d.push(s.last()) =~= s);
    }
}

/// A text whose characters all pass the tag filter, are not white space and
/// hold no blank is a fixed point of tag sanitization.
proof fn lemma_tag_chars_fixed(s: Seq<char>)
    requires
        forall|i: int|
            0 <= i < s.len() ==> keep_tag_char(#[trigger] s[i]) && !whitespace_char(s[i]) && s[i]
                != ' ',
    ensures
        spec_sanitize_tag(s) == s,
{
    assert(spec_trim(s) == s) by {
        if s.len() > 0 {
            assert(!whitespace_char(s[0]));
            assert(!whitespace_char(s.last()));
        }
    }
    let m = s.map_values(|c: char| space_to_underscore(c));
    assert(m =~= s);
    lemma_filter_keeps_all(s);
}

/// Sanitize a tag string. The result is already sanitized: sanitizing it
/// again changes nothing.
pub fn sanitize_tag(tag: &str) -> (r: String)
    ensures
        r@ == spec_sanitize_tag(tag@),
        spec_sanitize_tag(r@) == r@,
{
    let n = tag.unicode_len();
    let mut a: usize = 0;
    while a < n && tag.get_char(a).is_whitespace()
        invariant
            a <= n,
            n == tag@.len(),
            forall|k: int| 0 <= k < a ==> whitespace_char(tag@[k]),
        decreases n - a,
    {
        a += 1;
    }
    let mut b: usize = n;
    while b > a && tag.get_char(b - 1).is_whitespace()
        invariant
            a <= b <= n,
            n == tag@.len(),
            forall|k: int| 0 <= k < a ==> whitespace_char(tag@[k]),
            forall|k: int| b <= k < n ==> whitespace_char(tag@[k]),
        decreases b,
    {
        b -= 1;
    }
    proof {
        if a == b && a > 0 && b < n {
            // the whole text is white space, so the bounds may be collapsed
            assert(whitespace_char(tag@[b as int]));
            assert(false);
        }
        lemma_trim_as_subrange(tag@, a as int, b as int);
    }
    let ghost core = spec_trim(tag@);
    let mut out = String::new();
    let mut i: usize = a;
    while i < b
        invariant
            a <= i <= b <= n,
            n == tag@.len(),
            core =~= tag@.subrange(a as int, b as int),
            out@ =~= tag@.subrange(a as int, i as int).map_values(
                |c: char| space_to_underscore(c),
            ).filter(|c: char| keep_tag_char(c)),
            forall|k: int|
                0 <= k < out@.len() ==> keep_tag_char(#[trigger] out@[k]) && !whitespace_char(
                    out@[k],
                ) && out@[k] != ' ',
        decreases b - i,
    {
        let c = tag.get_char(i);
        let c2 = if c == ' ' {
            '_'
        } else {
            c
        };
        let c2_alnum = c2.is_alphanumeric();
        let _c2_white = c2.is_whitespace();
        let keep = c2_alnum || c2 == '_' || c2 == '-' || c2 == ':';
        proof {
            if keep {
                assert(keep_tag_char(c2) && !whitespace_char(c2) && c2 != ' ');
            }
            let pre = tag@.subrange(a as int, i as int);
            let pre1 = tag@.subrange(a as int, i + 1);
            assert(pre1.drop_last() =~= pre);
            let mapped = pre.map_values(|c: char| space_to_underscore(c));
            let mapped1 = pre1.map_values(|c: char| space_to_underscore(c));
            assert(mapped1.drop_last() =~= mapped);
            assert(mapped1.last() == c2);
            reveal_with_fuel(Seq::filter, 2);
        }
        if keep {
            push_char(&mut out, c2);
        }
        i += 1;
    }
    proof {
        assert(tag@.subrange(a as int, b as int) =~= core);
        assert(out@ =~= spec_sanitize_tag(tag@));
        lemma_tag_chars_fixed(out@);
    }
    out
}

/// Whether a card passes every validation rule.
pub open spec fn spec_card_valid(c: CardView) -> bool {
    &&& spec_trim(c.front).len() > 0
    &&& (c.card_type == CardType::Cloze || spec_trim(c.back).len() > 0)
    &&& c.front.len() <= MAX_FIELD_LENGTH
    &&& c.back.len() <= MAX_FIELD_LENGTH
    &&& (c.card_type == CardType::Cloze ==> has_cloze(c.front))
}

pub open spec fn front_empty_msg() -> Seq<char> {
    "Front field is empty"@
}

pub open spec fn back_empty_msg() -> Seq<char> {
    "Back field is empty for non-cloze card"@
}

pub open spec fn too_long_msg(field: Seq<char>, len: int) -> Seq<char> {
    field + " field exceeds maximum length ("@ + spec_dec_nat(len) + " > "@ + spec_dec_nat(
        MAX_FIELD_LENGTH as int,
    ) + ")"@
}

pub open spec fn cloze_missing_msg() -> Seq<char> {
    "Cloze card is missing valid cloze deletion ({{c1::...}})"@
}

pub open spec fn sanitized_msg() -> Seq<char> {
    "HTML was sanitized for security"@
}

/// The message of the single error reported for an invalid card: the checks
/// run in a fixed order and stop at the first failure.
pub open spec fn spec_first_error(c: CardView) -> Seq<char> {
    if spec_trim(c.front).len() == 0 {
        front_empty_msg()
    } else if c.card_type != CardType::Cloze && spec_trim(c.back).len() == 0 {
        back_empty_msg()
    } else if c.front.len() > MAX_FIELD_LENGTH {
        too_long_msg("Front"@, c.front.len() as int)
    } else if c.back.len() > MAX_FIELD_LENGTH {
        too_long_msg("Back"@, c.back.len() as int)
    } else {
        cloze_missing_msg()
    }
}

/// The sanitized copy of a valid card: fields cleaned of unsafe markup, tags
/// sanitized with emptied tags dropped, card type unchanged.
pub open spec fn spec_sanitized(c: CardView) -> CardView {
    CardView {
        card_type: c.card_type,
        front: clean_of(c.front),
        back: clean_of(c.back),
        suggested_tags: c.suggested_tags.map_values(|t: Seq<char>| spec_sanitize_tag(t)).filter(
            |t: Seq<char>| t.len() > 0,
        ),
    }
}

/// Whether sanitization changed either field.
pub open spec fn spec_changed(c: CardView) -> bool {
    clean_of(c.front) != c.front || clean_of(c.back) != c.back
}

/// An empty (post-trim) back invalidates a card exactly when it is not a
/// cloze card: the same back content leaves a cloze card's validity to its
/// remaining rules, which do not look at the back's content.
pub proof fn lemma_back_blank_rule(c: CardView)
    ensures
        (spec_trim(c.back).len() == 0 && c.card_type != CardType::Cloze) ==> !spec_card_valid(c),
        c.card_type == CardType::Cloze ==> (spec_card_valid(c) <==> (spec_trim(c.front).len() > 0
            && c.front.len() <= MAX_FIELD_LENGTH && c.back.len() <= MAX_FIELD_LENGTH && has_cloze(
            c.front,
        ))),
{
}

fn error_issue(message: String) -> (r: ValidationIssue)
    ensures
        r.severity == IssueSeverity::Error,
        r.message == message,
{
    ValidationIssue { severity: IssueSeverity::Error, message }
}

fn single_error(message: String) -> (r: ValidationResult)
    ensures
        !r.is_valid,
        r.sanitized_card is None,
        r.issues@.len() == 1,
        r.issues@[0].severity == IssueSeverity::Error,
        r.issues@[0].message == message,
{
    let mut issues: Vec<ValidationIssue> = Vec::new();
    issues.push(error_issue(message));
    ValidationResult::invalid(issues)
}

fn too_long_message(field: &str, len: usize) -> (r: String)
    ensures
        r@ == too_long_msg(field@, len as int),
{
    let mut m = String::from_str(field);
    m.append(" field exceeds maximum length (");
    let d = dec_u64(len as u64);
    m.append(d.as_str());
    m.append(" > ");
    let l = dec_u64(MAX_FIELD_LENGTH as u64);
    m.append(l.as_str());
    m.append(")");
    m
}

/// Validate one proposed card.
///
/// The checks run in order and stop at the first hard failure: a blank
/// front; a blank back on a non-cloze card; an over-long front or back; a
/// cloze card without a cloze deletion. A card that passes is returned in a
/// sanitized copy, with an informational issue when sanitization changed a
/// field.
pub fn validate_card(card: &AIGeneratedCard) -> (r: ValidationResult)
    ensures
        r.is_valid == spec_card_valid(card@),
        !spec_card_valid(card@) ==> {
            &&& r.sanitized_card is None
            &&& r.issues@.len() == 1
            &&& r.issues@[0].severity == IssueSeverity::Error
            &&& r.issues@[0].message@ == spec_first_error(card@)
        },
        spec_card_valid(card@) ==> {
            &&& r.sanitized_card matches Some(sc) && sc@ == spec_sanitized(card@)
            &&& spec_changed(card@) ==> r.issues@.len() == 1 && r.issues@[0].severity
                == IssueSeverity::Info && r.issues@[0].message@ == sanitized_msg()
            &&& !spec_changed(card@) ==> r.issues@.len() == 0
        },
{
    if is_blank(card.front.as_str()) {
        return single_error(String::from_str("Front field is empty"));
    }
    if !matches!(card.card_type, CardType::Cloze) {
        if is_blank(card.back.as_str()) {
            return single_error(String::from_str("Back field is empty for non-cloze card"));
        }
    }
    let front_len = card.front.as_str().unicode_len();
    if front_len > MAX_FIELD_LENGTH {
        return single_error(too_long_message("Front", front_len));
    }
    let back_len = card.back.as_str().unicode_len();
    if back_len > MAX_FIELD_LENGTH {
        return single_error(too_long_message("Back", back_len));
    }
    if matches!(card.card_type, CardType::Cloze) && !find_cloze(card.front.as_str()) {
        return single_error(
            String::from_str("Cloze card is missing valid cloze deletion ({{c1::...}})"),
        );
    }
    let sanitized_front = clean_html(card.front.as_str());
    let sanitized_back = clean_html(card.back.as_str());
    let changed = !(sanitized_front == card.front) || !(sanitized_back == card.back);

    let mut sanitized_tags: Vec<String> = Vec::new();
    let mut i: usize = 0;
    let ghost tagseq = card.suggested_tags.deep_view();
    while i < card.suggested_tags.len()
        invariant
            i <= card.suggested_tags.len(),
            tagseq == card.suggested_tags.deep_view(),
            tagseq.len() == card.suggested_tags@.len(),
            forall|k: int| 0 <= k < tagseq.len() ==> tagseq[k] == card.suggested_tags@[k]@,
            sanitized_tags.deep_view() =~= tagseq.subrange(0, i as int).map_values(
                |t: Seq<char>| spec_sanitize_tag(t),
            ).filter(|t: Seq<char>| t.len() > 0),
        decreases card.suggested_tags.len() - i,
    {
        let t = sanitize_tag(card.suggested_tags[i].as_str());
        proof {
            let pre = tagseq.subrange(0, i as int);
            let pre1 = tagseq.subrange(0, i + 1);
            assert(pre1.drop_last() =~= pre);
            let mapped = pre.map_values(|t: Seq<char>| spec_sanitize_tag(t));
            let mapped1 = pre1.map_values(|t: Seq<char>| spec_sanitize_tag(t));
            assert(mapped1.drop_last() =~= mapped);
            assert(mapped1.last() == spec_sanitize_tag(tagseq[i as int]));
            reveal_with_fuel(Seq::filter, 2);
        }
        if t.as_str().unicode_len() > 0 {
            sanitized_tags.push(t);
        }
        i += 1;
    }
    proof {
        assert(tagseq.subrange(0, tagseq.len() as int) =~= tagseq);
    }

    let sanitized_card = AIGeneratedCard {
        card_type: card.card_type,
        front: sanitized_front,
        back: sanitized_back,
        suggested_tags: sanitized_tags,
    };
    proof {
        assert(sanitized_card@ =~= spec_sanitized(card@));
    }
    if changed {
        let mut issues: Vec<ValidationIssue> = Vec::new();
        issues.push(
            ValidationIssue {
                severity: IssueSeverity::Info,
                message: String::from_str("HTML was sanitized for security"),
            },
        );
        ValidationResult::valid_with_warnings(sanitized_card, issues)
    } else {
        ValidationResult::valid(sanitized_card)
    }
}

} // verus!

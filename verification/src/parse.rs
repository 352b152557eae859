//! Tolerant parsing of an external JSON payload into an ordered sequence of
//! normalized card proposals.

use vstd::prelude::*;
use crate::json::JsonModel;
use crate::json::json_of;
use crate::json::jv_as_array;
use crate::json::jv_as_str;
use crate::json::jv_get;
use crate::json::jv_model;
use crate::json::jv_parse;

verus! {

/// Type of flashcard.
#[derive(Debug, Clone, Copy, PartialEq, Eq, Structural)]
pub enum CardType {
    Basic,
    BasicReversed,
    Cloze,
}

/// A single machine-generated flashcard parsed from the external response.
#[derive(Debug, Clone, PartialEq, Eq)]
pub struct AIGeneratedCard {
    /// Type of card.
    pub card_type: CardType,
    /// Front side content (or the full cloze text for cloze cards).
    pub front: String,
    /// Back side content (usually empty for cloze cards).
    pub back: String,
    /// Suggested tags from the source.
    pub suggested_tags: Vec<String>,
}

/// Mathematical view of one card.
#[verifier::ext_equal]
pub struct CardView {
    pub card_type: CardType,
    pub front: Seq<char>,
    pub back: Seq<char>,
    pub suggested_tags: Seq<Seq<char>>,
}

impl View for AIGeneratedCard {
    type V = CardView;

    open spec fn view(&self) -> CardView {
        CardView {
            card_type: self.card_type,
            front: self.front@,
            back: self.back@,
            suggested_tags: self.suggested_tags.deep_view(),
        }
    }
}

impl DeepView for AIGeneratedCard {
    type V = CardView;

    open spec fn deep_view(&self) -> CardView {
        self.view()
    }
}

pub open spec fn upper_ascii(c: char) -> bool {
    'A' <= c && c <= 'Z'
}

/// Whether character `c` equals keyword character `k` after folding ASCII
/// upper case to lower case.
pub open spec fn fold_matches(c: char, k: char) -> bool {
    c == k || (upper_ascii(c) && c as u32 + 32 == k as u32)
}

/// Whether `s` equals the (lower-case) keyword `kw` up to ASCII case.
pub open spec fn keyword_match(s: Seq<char>, kw: Seq<char>) -> bool {
    s.len() == kw.len() && forall|i: int|
        0 <= i < s.len() ==> fold_matches(s[i], #[trigger] kw[i])
}

/// The card type a textual `type` value normalizes to; anything outside the
/// three known names maps to `Basic` by design.
pub open spec fn spec_card_type_of(s: Seq<char>) -> CardType {
    if keyword_match(s, "basic"@) {
        CardType::Basic
    } else if keyword_match(s, "basic_reversed"@) {
        CardType::BasicReversed
    } else if keyword_match(s, "cloze"@) {
        CardType::Cloze
    } else {
        CardType::Basic
    }
}

fn fold_matches_exec(c: char, k: char) -> (r: bool)
    ensures
        r == fold_matches(c, k),
{
    c == k || (('A' <= c && c <= 'Z') && (c as u32) + 32 == (k as u32))
}

fn keyword_match_exec(s: &str, kw: &str) -> (r: bool)
    ensures
        r == keyword_match(s@, kw@),
{
    let n = s.unicode_len();
    let m = kw.unicode_len();
    if n != m {
        return false;
    }
    let mut i: usize = 0;
    while i < n
        invariant
            i <= n,
            n == s@.len(),
            n == kw@.len(),
            forall|j: int| 0 <= j < i ==> fold_matches(s@[j], #[trigger] kw@[j]),
        decreases n - i,
    {
        if !fold_matches_exec(s.get_char(i), kw.get_char(i)) {
            return false;
        }
        i += 1;
    }
    true
}

impl CardType {
    /// Convert from the textual representation, folding ASCII case; unknown
    /// names normalize to `Basic`.
    pub fn from_str(s: &str) -> (r: Self)
        ensures
            r == spec_card_type_of(s@),
    {
        if keyword_match_exec(s, "basic") {
            CardType::Basic
        } else if keyword_match_exec(s, "basic_reversed") {
            CardType::BasicReversed
        } else if keyword_match_exec(s, "cloze") {
            CardType::Cloze
        } else {
            CardType::Basic
        }
    }
}

/// Mathematical view of one raw card object before normalization.
#[verifier::ext_equal]
pub struct RawCardView {
    pub card_type: Seq<char>,
    pub front: Seq<char>,
    pub back: Seq<char>,
    pub suggested_tags: Seq<Seq<char>>,
}

/// Normalization of a raw card: the textual type collapses to a `CardType`,
/// everything else is carried over unchanged.
pub open spec fn spec_normalize(r: RawCardView) -> CardView {
    CardView {
        card_type: spec_card_type_of(r.card_type),
        front: r.front,
        back: r.back,
        suggested_tags: r.suggested_tags,
    }
}

/// The strings of a JSON array whose elements are all strings, `None` as
/// soon as one element is not a string.
pub open spec fn str_entries(elems: Seq<JsonModel>) -> Option<Seq<Seq<char>>> {
    if forall|i: int| 0 <= i < elems.len() ==> (#[trigger] elems[i]) is Str {
        Some(elems.map_values(|m: JsonModel| m->Str_0))
    } else {
        None
    }
}

/// The raw card a JSON value yields: an object with required string entries
/// `type` and `front`, an optional string `back` (defaulting to empty) and an
/// optional all-string array `suggested_tags` (defaulting to empty). Any
/// other shape fails the whole card.
pub open spec fn raw_card_of(m: JsonModel) -> Option<RawCardView> {
    match m {
        JsonModel::Obj(o) => {
            if o.contains_key("type"@) && o["type"@] is Str && o.contains_key("front"@)
                && o["front"@] is Str && (!o.contains_key("back"@) || o["back"@] is Str) && (
            !o.contains_key("suggested_tags"@) || (o["suggested_tags"@] is Arr && str_entries(
                o["suggested_tags"@]->Arr_0,
            ) is Some)) {
                Some(
                    RawCardView {
                        card_type: o["type"@]->Str_0,
                        front: o["front"@]->Str_0,
                        back: if o.contains_key("back"@) {
                            o["back"@]->Str_0
                        } else {
                            Seq::empty()
                        },
                        suggested_tags: if o.contains_key("suggested_tags"@) {
                            str_entries(o["suggested_tags"@]->Arr_0)->0
                        } else {
                            Seq::empty()
                        },
                    },
                )
            } else {
                None
            }
        },
        _ => None,
    }
}

/// The raw cards of an array of JSON values, all of which must be
/// well-shaped card objects.
pub open spec fn raw_cards_of(elems: Seq<JsonModel>) -> Option<Seq<RawCardView>> {
    if forall|i: int| 0 <= i < elems.len() ==> raw_card_of(#[trigger] elems[i]) is Some {
        Some(elems.map_values(|m: JsonModel| raw_card_of(m)->0))
    } else {
        None
    }
}

/// The raw cards of a whole JSON document: an object whose `cards` entry is
/// an array of well-shaped card objects.
pub open spec fn cards_doc(m: JsonModel) -> Option<Seq<RawCardView>> {
    match m {
        JsonModel::Obj(o) => {
            if o.contains_key("cards"@) && o["cards"@] is Arr {
                raw_cards_of(o["cards"@]->Arr_0)
            } else {
                None
            }
        },
        _ => None,
    }
}

/// One deserialization attempt on the given text: the raw cards when the
/// text is valid JSON of the expected shape, `None` otherwise.
pub open spec fn spec_attempt(s: Seq<char>) -> Option<Seq<RawCardView>> {
    match json_of(s) {
        Some(m) => cards_doc(m),
        None => None,
    }
}

pub open spec fn first_index_of(s: Seq<char>, c: char, i: int) -> bool {
    0 <= i < s.len() && s[i] == c && forall|k: int| 0 <= k < i ==> s[k] != c
}

pub open spec fn last_index_of(s: Seq<char>, c: char, j: int) -> bool {
    0 <= j < s.len() && s[j] == c && forall|k: int| j < k < s.len() ==> s[k] != c
}

/// The substring from the first `{` through the last `}`, when both exist in
/// that order: the window a JSON payload wrapped in prose is extracted from.
pub open spec fn spec_window(s: Seq<char>) -> Option<Seq<char>> {
    if (exists|i: int| first_index_of(s, '{', i)) && (exists|j: int| last_index_of(s, '}', j)) {
        let i = choose|i: int| first_index_of(s, '{', i);
        let j = choose|j: int| last_index_of(s, '}', j);
        if i <= j {
            Some(s.subrange(i, j + 1))
        } else {
            None
        }
    } else {
        None
    }
}

/// The outcome parsing owes on the given text.
pub enum ParseOutcome {
    Cards(Seq<CardView>),
    NoCardsErr,
    JsonErr,
}

/// The whole parsing policy: a direct attempt; on a well-shaped but empty
/// `cards` array a distinct "no cards" failure; on a failed attempt a second
/// attempt on the brace-delimited window, which must yield at least one card.
pub open spec fn spec_parse(s: Seq<char>) -> ParseOutcome {
    match spec_attempt(s) {
        Some(raws) => if raws.len() > 0 {
            ParseOutcome::Cards(raws.map_values(|r: RawCardView| spec_normalize(r)))
        } else {
            ParseOutcome::NoCardsErr
        },
        None => match spec_window(s) {
            Some(w) => match spec_attempt(w) {
                Some(raws) => if raws.len() > 0 {
                    ParseOutcome::Cards(raws.map_values(|r: RawCardView| spec_normalize(r)))
                } else {
                    ParseOutcome::JsonErr
                },
                None => ParseOutcome::JsonErr,
            },
            None => ParseOutcome::JsonErr,
        },
    }
}

/// Failure of the response parser.
#[derive(Debug)]
pub enum ParseError {
    /// The response was well-shaped but held no cards.
    NoCards,
    /// The response could not be read as a card list at all.
    Json { info: String },
}

pub(crate) fn read_string_array(v: &serde_json::Value) -> (r: Option<Vec<String>>)
    ensures
        match r {
            Some(tags) => {
                &&& jv_model(*v) is Arr
                &&& str_entries(jv_model(*v)->Arr_0) == Some(tags.deep_view())
            },
            None => !(jv_model(*v) is Arr && str_entries(jv_model(*v)->Arr_0) is Some),
        },
{
    let arr = match jv_as_array(v) {
        Some(a) => a,
        None => {
            return None;
        },
    };
    let ghost elems = jv_model(*v)->Arr_0;
    proof {
        assert(elems == arr@.map_values(|x: serde_json::Value| jv_model(x)));
    }
    let mut out: Vec<String> = Vec::new();
    let mut i: usize = 0;
    while i < arr.len()
        invariant
            i <= arr.len(),
            elems == arr@.map_values(|x: serde_json::Value| jv_model(x)),
            jv_model(*v) == JsonModel::Arr(elems),
            out@.len() == i,
            forall|k: int|
                0 <= k < i ==> (#[trigger] elems[k]) is Str && out.deep_view()[k] == elems[k]->Str_0,
        decreases arr.len() - i,
    {
        match jv_as_str(&arr[i]) {
            Some(s) => {
                out.push(s.to_owned());
            },
            None => {
                proof {
                    assert(elems[i as int] == jv_model(arr@[i as int]));
                    assert(!(elems[i as int] is Str));
                }
                return None;
            },
        }
        i += 1;
    }
    proof {
        assert(forall|k: int| 0 <= k < elems.len() ==> (#[trigger] elems[k]) is Str);
        assert(out.deep_view() =~= elems.map_values(|m: JsonModel| m->Str_0));
    }
    Some(out)
}

fn read_one_card(elem: &serde_json::Value) -> (r: Option<AIGeneratedCard>)
    ensures
        match r {
            Some(card) => {
                &&& raw_card_of(jv_model(*elem)) matches Some(raw)
                &&& card@ == spec_normalize(raw)
            },
            None => raw_card_of(jv_model(*elem)) is None,
        },
{
    let ts = match jv_get(elem, "type") {
        Some(x) => match jv_as_str(x) {
            Some(s) => s,
            None => {
                return None;
            },
        },
        None => {
            return None;
        },
    };
    let fs = match jv_get(elem, "front") {
        Some(x) => match jv_as_str(x) {
            Some(s) => s,
            None => {
                return None;
            },
        },
        None => {
            return None;
        },
    };
    let back: String = match jv_get(elem, "back") {
        Some(x) => match jv_as_str(x) {
            Some(s) => s.to_owned(),
            None => {
                return None;
            },
        },
        None => String::new(),
    };
    let tags: Vec<String> = match jv_get(elem, "suggested_tags") {
        Some(x) => match read_string_array(x) {
            Some(t) => t,
            None => {
                return None;
            },
        },
        None => Vec::new(),
    };
    let card = AIGeneratedCard {
        card_type: CardType::from_str(ts),
        front: fs.to_owned(),
        back,
        suggested_tags: tags,
    };
    proof {
        let m = jv_model(*elem);
        assert(raw_card_of(m) is Some);
        assert(card@ =~= spec_normalize(raw_card_of(m)->0));
    }
    Some(card)
}

fn read_cards_from_value(v: &serde_json::Value) -> (r: Option<Vec<AIGeneratedCard>>)
    ensures
        match r {
            Some(cards) => {
                &&& cards_doc(jv_model(*v)) matches Some(raws)
                &&& cards.deep_view() == raws.map_values(|rc: RawCardView| spec_normalize(rc))
            },
            None => cards_doc(jv_model(*v)) is None,
        },
{
    let cards_val = match jv_get(v, "cards") {
        Some(c) => c,
        None => {
            return None;
        },
    };
    let arr = match jv_as_array(cards_val) {
        Some(a) => a,
        None => {
            return None;
        },
    };
    let ghost elems = jv_model(*cards_val)->Arr_0;
    proof {
        assert(elems == arr@.map_values(|x: serde_json::Value| jv_model(x)));
    }
    let mut out: Vec<AIGeneratedCard> = Vec::new();
    let mut i: usize = 0;
    while i < arr.len()
        invariant
            i <= arr.len(),
            elems == arr@.map_values(|x: serde_json::Value| jv_model(x)),
            jv_model(*cards_val) == JsonModel::Arr(elems),
            jv_model(*v) matches JsonModel::Obj(o) && o.contains_key("cards"@) && o["cards"@]
                == jv_model(*cards_val),
            out@.len() == i,
            forall|k: int|
                0 <= k < i ==> raw_card_of(#[trigger] elems[k]) is Some && out.deep_view()[k]
                    == spec_normalize(raw_card_of(elems[k])->0),
        decreases arr.len() - i,
    {
        match read_one_card(&arr[i]) {
            Some(card) => {
                out.push(card);
            },
            None => {
                proof {
                    assert(elems[i as int] == jv_model(arr@[i as int]));
                    assert(raw_card_of(elems[i as int]) is None);
                    assert(raw_cards_of(elems) is None);
                }
                return None;
            },
        }
        i += 1;
    }
    proof {
        assert(forall|k: int| 0 <= k < elems.len() ==> raw_card_of(#[trigger] elems[k]) is Some);
        assert(raw_cards_of(elems) matches Some(raws) && out.deep_view() =~= raws.map_values(
            |rc: RawCardView| spec_normalize(rc),
        ));
    }
    Some(out)
}

fn find_window<'a>(s: &'a str) -> (r: Option<&'a str>)
    ensures
        match r {
            Some(w) => spec_window(s@) == Some(w@),
            None => spec_window(s@) is None,
        },
{
    let n = s.unicode_len();
    let mut i: usize = 0;
    let mut found_first = false;
    while i < n && !found_first
        invariant
            i <= n,
            n == s@.len(),
            !found_first ==> forall|k: int| 0 <= k < i ==> s@[k] != '{',
            found_first ==> first_index_of(s@, '{', i as int),
        decreases n - i, (if found_first { 0int } else { 1int }),
    {
        if s.get_char(i) == '{' {
            found_first = true;
        } else {
            i += 1;
        }
    }
    let mut j: usize = n;
    let mut found_last = false;
    while j > 0 && !found_last
        invariant
            j <= n,
            n == s@.len(),
            !found_last ==> forall|k: int| j <= k < n ==> s@[k] != '}',
            found_last ==> last_index_of(s@, '}', j as int),
        decreases j, (if found_last { 0int } else { 1int }),
    {
        if s.get_char(j - 1) == '}' {
            j -= 1;
            found_last = true;
        } else {
            j -= 1;
        }
    }
    if found_first && found_last && i <= j {
        let w = s.substring_char(i, j + 1);
        proof {
            let ci = choose|x: int| first_index_of(s@, '{', x);
            let cj = choose|x: int| last_index_of(s@, '}', x);
            lemma_first_index_unique(s@, '{', ci, i as int);
            lemma_last_index_unique(s@, '}', cj, j as int);
        }
        Some(w)
    } else {
        if found_first && found_last {
            proof {
                let ci = choose|x: int| first_index_of(s@, '{', x);
                let cj = choose|x: int| last_index_of(s@, '}', x);
                lemma_first_index_unique(s@, '{', ci, i as int);
                lemma_last_index_unique(s@, '}', cj, j as int);
            }
        }
        None
    }
}

proof fn lemma_first_index_unique(s: Seq<char>, c: char, i1: int, i2: int)
    requires
        first_index_of(s, c, i1),
        first_index_of(s, c, i2),
    ensures
        i1 == i2,
{
}

proof fn lemma_last_index_unique(s: Seq<char>, c: char, j1: int, j2: int)
    requires
        last_index_of(s, c, j1),
        last_index_of(s, c, j2),
    ensures
        j1 == j2,
{
}

fn parse_fallback(json: &str, cause: String) -> (r: Result<Vec<AIGeneratedCard>, ParseError>)
    requires
        spec_attempt(json@) is None,
    ensures
        match r {
            Ok(cards) => spec_parse(json@) == ParseOutcome::Cards(cards.deep_view()) && cards@.len()
                > 0,
            Err(e) => match e {
                ParseError::NoCards => spec_parse(json@) == ParseOutcome::NoCardsErr,
                ParseError::Json { info } => spec_parse(json@) == ParseOutcome::JsonErr && info@
                    == "Failed to parse OpenAI response: "@ + cause@,
            },
        },
{
    let mut message = String::from_str("Failed to parse OpenAI response: ");
    message.append(cause.as_str());
    let failed = Err(ParseError::Json { info: message });
    match find_window(json) {
        Some(w) => {
            match jv_parse(w) {
                Ok(v) => match read_cards_from_value(&v) {
                    Some(cards) => {
                        if cards.len() > 0 {
                            proof {
                                let raws = cards_doc(jv_model(v))->0;
                                assert(cards.deep_view().len() == cards@.len());
                                assert(raws.len() == cards@.len());
                            }
                            Ok(cards)
                        } else {
                            proof {
                                let raws = cards_doc(jv_model(v))->0;
                                assert(cards.deep_view().len() == cards@.len());
                                assert(raws.len() == 0);
                            }
                            failed
                        }
                    },
                    None => failed,
                },
                Err(_) => failed,
            }
        },
        None => failed,
    }
}

/// Parse the external response text into a list of cards.
///
/// The text is first read whole; if that fails, the substring from the first
/// `{` to the last `}` is read instead, tolerating prose wrapped around the
/// payload. A well-shaped response with an empty card list is itself a
/// failure, distinct from a malformed one.
pub fn parse_openai_response(json: &str) -> (r: Result<Vec<AIGeneratedCard>, ParseError>)
    ensures
        match r {
            Ok(cards) => spec_parse(json@) == ParseOutcome::Cards(cards.deep_view()) && cards@.len()
                > 0,
            Err(e) => match e {
                ParseError::NoCards => spec_parse(json@) == ParseOutcome::NoCardsErr,
                ParseError::Json { info } => spec_parse(json@) == ParseOutcome::JsonErr && (
                exists|cause: Seq<char>|
                    info@ == "Failed to parse OpenAI response: "@ + cause),
            },
        },
{
    match jv_parse(json) {
        Ok(v) => {
            match read_cards_from_value(&v) {
                Some(cards) => {
                    proof {
                        let raws = cards_doc(jv_model(v))->0;
                        assert(cards.deep_view().len() == cards@.len());
                        assert(raws.len() == cards@.len());
                    }
                    if cards.len() > 0 {
                        Ok(cards)
                    } else {
                        Err(ParseError::NoCards)
                    }
                },
                None => parse_fallback(json, String::from_str("response shape did not match")),
            }
        },
        Err(info) => parse_fallback(json, info),
    }
}

} // verus!

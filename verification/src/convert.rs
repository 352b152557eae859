//! Deterministic conversion of a validated card plus target-deck/tag
//! configuration into the application's foreign-note import shape.

use vstd::prelude::*;
use std::time::SystemTime;
use std::time::UNIX_EPOCH;
use crate::parse::AIGeneratedCard;
use crate::parse::CardType;
use crate::parse::CardView;
use crate::text::alphanumeric_char;

verus! {

/// A reference to a deck or notetype, by name or by numeric id.
#[derive(Debug, Clone, PartialEq, Eq)]
pub enum NameOrId {
    Id(i64),
    Name(String),
}

/// Mathematical view of a deck or notetype reference.
pub enum NameOrIdView {
    Id(i64),
    Name(Seq<char>),
}

impl View for NameOrId {
    type V = NameOrIdView;

    open spec fn view(&self) -> NameOrIdView {
        match self {
            NameOrId::Id(n) => NameOrIdView::Id(*n),
            NameOrId::Name(s) => NameOrIdView::Name(s@),
        }
    }
}

/// A per-card scheduling override; this pipeline never produces any.
#[derive(Debug, Clone, PartialEq, Eq)]
pub struct CardOverride {
    pub template_index: u32,
}

/// The application's foreign-note import shape.
#[derive(Debug, Clone, PartialEq, Eq)]
pub struct ForeignNote {
    /// Note guid; empty when the importer is to assign one.
    pub guid: String,
    /// Ordered field values, index-aligned to the target notetype.
    pub fields: Vec<Option<String>>,
    /// Tags to apply, in order, without deduplication.
    pub tags: Option<Vec<String>>,
    /// Target notetype, by name or id.
    pub notetype: NameOrId,
    /// Target deck, by name or id.
    pub deck: NameOrId,
    /// Per-card overrides; always empty here.
    pub cards: Vec<CardOverride>,
}

/// Configuration for converting cards to the import format.
#[derive(Debug, Clone)]
pub struct ConvertConfig {
    /// Target deck for import (by id or name).
    pub target_deck: NameOrId,
    /// Additional tags to apply to all cards.
    pub auto_tags: Vec<String>,
    /// Source name for tagging (e.g. a file name).
    pub source_name: Option<String>,
}

impl Default for ConvertConfig {
    /// The default configuration: the deck named `Default`, the single
    /// provenance tag, no source name.
    fn default() -> (r: Self)
        ensures
            r.target_deck@ matches NameOrIdView::Name(d) && d == "Default"@,
            r.auto_tags.deep_view() == seq!["ai-generated"@],
            r.source_name is None,
    {
        let mut auto_tags: Vec<String> = Vec::new();
        auto_tags.push(String::from_str("ai-generated"));
        proof {
            assert(auto_tags.deep_view() =~~= seq!["ai-generated"@]);
        }
        Self {
            target_deck: NameOrId::Name(String::from_str("Default")),
            auto_tags,
            source_name: None,
        }
    }
}

/// The notetype name each card type converts to.
pub open spec fn spec_notetype_name(t: CardType) -> Seq<char> {
    match t {
        CardType::Basic => "Basic"@,
        CardType::BasicReversed => "Basic (and reversed card)"@,
        CardType::Cloze => "Cloze"@,
    }
}

/// Source-name sanitization for tagging: every character that is not
/// alphanumeric, `_` or `-` becomes `_`.
pub open spec fn spec_sanitize_source(s: Seq<char>) -> Seq<char> {
    s.map_values(
        |c: char|
            if alphanumeric_char(c) || c == '_' || c == '-' {
                c
            } else {
                '_'
            },
    )
}

/// Sanitize a source name for use as a tag.
pub fn sanitize_source_for_tag(source: &str) -> (r: String)
    ensures
        r@ == spec_sanitize_source(source@),
{
    let n = source.unicode_len();
    let mut out = String::new();
    let mut i: usize = 0;
    while i < n
        invariant
            i <= n,
            n == source@.len(),
            out@ =~= spec_sanitize_source(source@.subrange(0, i as int)),
        decreases n - i,
    {
        let c = source.get_char(i);
        let keep = c.is_alphanumeric() || c == '_' || c == '-';
        let c2 = if keep {
            c
        } else {
            '_'
        };
        crate::text::push_char(&mut out, c2);
        proof {
            assert(source@.subrange(0, i + 1).drop_last() =~= source@.subrange(0, i as int));
            assert(out@ =~= spec_sanitize_source(source@.subrange(0, i + 1)));
        }
        i += 1;
    }
    proof {
        assert(source@.subrange(0, n as int) =~= source@);
    }
    out
}

/// The base62 alphabet character for a value below 62: digits, then upper
/// case, then lower case.
pub open spec fn b62_char(d: int) -> char {
    if d < 10 {
        ((48 + d) as u8) as char
    } else if d < 36 {
        ((55 + d) as u8) as char
    } else {
        ((61 + d) as u8) as char
    }
}

/// The fixed-width base62 rendering of `n`, least significant digit first.
pub open spec fn spec_base62(n: int, count: nat) -> Seq<char>
    decreases count,
{
    if count == 0 {
        Seq::empty()
    } else {
        seq![b62_char(n % 62)] + spec_base62(n / 62, (count - 1) as nat)
    }
}

/// Whether a character belongs to the base62 alphabet.
pub open spec fn b62_alphabet(c: char) -> bool {
    ('0' <= c && c <= '9') || ('A' <= c && c <= 'Z') || ('a' <= c && c <= 'z')
}

/// The shape every generated guid has: ten base62 characters.
pub open spec fn guid_wellformed(s: Seq<char>) -> bool {
    s.len() == 10 && forall|i: int| 0 <= i < s.len() ==> b62_alphabet(#[trigger] s[i])
}

fn b62_char_exec(d: u64) -> (r: char)
    requires
        d < 62,
    ensures
        r == b62_char(d as int),
        b62_alphabet(r),
{
    if d < 10 {
        ((48 + d) as u8) as char
    } else if d < 36 {
        ((55 + d) as u8) as char
    } else {
        ((61 + d) as u8) as char
    }
}

fn encode_base62(n0: u64, count: usize) -> (r: String)
    ensures
        r@ == spec_base62(n0 as int, count as nat),
        r@.len() == count,
    decreases count,
{
    let mut s = String::new();
    let mut n = n0;
    let mut i: usize = 0;
    while i < count
        invariant
            i <= count,
            s@.len() == i,
            spec_base62(n0 as int, count as nat) =~= s@ + spec_base62(n as int, (count - i) as nat),
        decreases count - i,
    {
        let d = n % 62;
        let c = b62_char_exec(d);
        crate::text::push_char(&mut s, c);
        proof {
            assert(spec_base62(n as int, (count - i) as nat) =~= seq![b62_char(n as int % 62)]
                + spec_base62(n as int / 62, (count - i - 1) as nat));
            assert((s@ + spec_base62(n as int / 62, (count - i - 1) as nat)) =~= (s@.drop_last()
                + spec_base62(n as int, (count - i) as nat)));
        }
        n = n / 62;
        i += 1;
    }
    proof {
        assert(spec_base62(n as int, 0) =~= Seq::<char>::empty());
        assert(s@ + Seq::<char>::empty() =~= s@);
    }
    s
}

/// Relies on std::time::SystemTime: the clock's reading as nanoseconds since
/// the Unix epoch, truncated to 64 bits; nothing is promised of the value.
#[verifier::external_body]
fn now_nanos() -> u64 {
    SystemTime::now().duration_since(UNIX_EPOCH).map(|d| d.as_nanos() as u64).unwrap_or(0)
}

proof fn lemma_base62_alphabet(n: int, count: nat)
    ensures
        forall|i: int|
            0 <= i < spec_base62(n, count).len() ==> b62_alphabet(
                #[trigger] spec_base62(n, count)[i],
            ),
        spec_base62(n, count).len() == count,
    decreases count,
{
    if count > 0 {
        lemma_base62_alphabet(n / 62, (count - 1) as nat);
        if n >= 0 {
            assert(0 <= n % 62 < 62);
        }
    }
}

/// Generate a guid for a new note: a time-seeded, fixed-length base62
/// string; uniqueness is best effort, not guaranteed.
pub fn generate_guid() -> (r: String)
    ensures
        guid_wellformed(r@),
{
    let seed = now_nanos();
    proof {
        lemma_base62_alphabet(seed as int, 10);
    }
    encode_base62(seed, 10)
}

/// The full tag list a conversion produces: the configured tags, then a
/// `source::` tag when a source name is configured, then the card's own
/// suggested tags, in order and without deduplication.
pub open spec fn spec_tags(card: CardView, config: ConvertConfig) -> Seq<Seq<char>> {
    (match config.source_name {
        Some(sn) => config.auto_tags.deep_view() + seq!["source::"@ + spec_sanitize_source(sn@)],
        None => config.auto_tags.deep_view(),
    }) + card.suggested_tags
}

/// Everything `to_foreign_note` promises of a produced note, short of the
/// unpredictable guid seed: two fields holding front and back, the exact tag
/// list, the fixed notetype name, the configured deck, no card overrides.
pub open spec fn spec_converted_note(card: CardView, config: ConvertConfig, note: ForeignNote) -> bool {
    &&& guid_wellformed(note.guid@)
    &&& note.fields.deep_view() == seq![Some(card.front), Some(card.back)]
    &&& note.tags matches Some(ts) && ts.deep_view() == spec_tags(card, config)
    &&& note.notetype@ matches NameOrIdView::Name(nm) && nm == spec_notetype_name(card.card_type)
    &&& note.deck@ == config.target_deck@
    &&& note.cards@.len() == 0
}

fn copy_name_or_id(n: &NameOrId) -> (r: NameOrId)
    ensures
        r@ == n@,
{
    match n {
        NameOrId::Id(id) => NameOrId::Id(*id),
        NameOrId::Name(s) => NameOrId::Name(s.clone()),
    }
}

pub(crate) fn copy_strings_into(dst: &mut Vec<String>, src: &Vec<String>)
    ensures
        final(dst).deep_view() == old(dst).deep_view() + src.deep_view(),
{
    let ghost base = dst@;
    let mut i: usize = 0;
    while i < src.len()
        invariant
            i <= src@.len(),
            dst@.len() == base.len() + i,
            forall|k: int| 0 <= k < base.len() ==> #[trigger] dst@[k] == base[k],
            forall|k: int|
                base.len() <= k < dst@.len() ==> (#[trigger] dst@[k])@ == src@[k - base.len()]@,
        decreases src@.len() - i,
    {
        dst.push(src[i].clone());
        i += 1;
    }
    proof {
        let lhs = dst.deep_view();
        let rhs = old(dst).deep_view() + src.deep_view();
        assert(lhs.len() == rhs.len());
        assert forall|k: int| 0 <= k < lhs.len() implies lhs[k] == rhs[k] by {
            assert(lhs[k] == dst@[k]@);
            if k < base.len() {
                assert(dst@[k] == base[k]);
                assert(rhs[k] == old(dst).deep_view()[k]);
                assert(old(dst).deep_view()[k] == base[k]@);
            } else {
                assert(dst@[k]@ == src@[k - base.len()]@);
                assert(rhs[k] == src.deep_view()[k - base.len()]);
                assert(src.deep_view()[k - base.len()] == src@[k - base.len()]@);
            }
        }
        assert(lhs =~~= rhs);
    }
}

/// Convert one card to the foreign-note import shape.
///
/// The notetype name follows the card type; the two fields are front and
/// back for every card type, the cloze markup living in the first field; the
/// tags are the configured tags, a `source::` tag when a source name is
/// given, then the card's own tags; the deck is taken verbatim from the
/// configuration; a fresh guid is generated.
pub fn to_foreign_note(card: &AIGeneratedCard, config: &ConvertConfig) -> (r: ForeignNote)
    ensures
        spec_converted_note(card@, *config, r),
{
    let mut tags: Vec<String> = Vec::new();
    copy_strings_into(&mut tags, &config.auto_tags);
    match &config.source_name {
        Some(source) => {
            let mut source_tag = String::from_str("source::");
            let cleaned = sanitize_source_for_tag(source.as_str());
            source_tag.append(cleaned.as_str());
            tags.push(source_tag);
            proof {
                assert(tags.deep_view() =~~= config.auto_tags.deep_view() + seq![
                    "source::"@ + spec_sanitize_source(source@)
                ]);
            }
        },
        None => {},
    }
    copy_strings_into(&mut tags, &card.suggested_tags);
    proof {
        assert(tags.deep_view() =~~= spec_tags(card@, *config));
    }

    let notetype = match card.card_type {
        CardType::Basic => NameOrId::Name(String::from_str("Basic")),
        CardType::BasicReversed => NameOrId::Name(String::from_str("Basic (and reversed card)")),
        CardType::Cloze => NameOrId::Name(String::from_str("Cloze")),
    };

    let mut fields: Vec<Option<String>> = Vec::new();
    fields.push(Some(card.front.clone()));
    fields.push(Some(card.back.clone()));
    proof {
        assert(fields.deep_view() =~~= seq![Some(card@.front), Some(card@.back)]);
    }

    ForeignNote {
        guid: generate_guid(),
        fields,
        tags: Some(tags),
        notetype,
        deck: copy_name_or_id(&config.target_deck),
        cards: Vec::new(),
    }
}

/// Batch convert multiple cards; order is preserved and each note satisfies
/// the single-card conversion contract.
pub fn batch_convert(cards: &[AIGeneratedCard], config: &ConvertConfig) -> (r: Vec<ForeignNote>)
    ensures
        r@.len() == cards@.len(),
        forall|i: int|
            0 <= i < cards@.len() ==> spec_converted_note(cards@[i]@, *config, #[trigger] r@[i]),
{
    let mut notes: Vec<ForeignNote> = Vec::new();
    let mut i: usize = 0;
    while i < cards.len()
        invariant
            i <= cards@.len(),
            notes@.len() == i,
            forall|k: int|
                0 <= k < i ==> spec_converted_note(cards@[k]@, *config, #[trigger] notes@[k]),
        decreases cards@.len() - i,
    {
        notes.push(to_foreign_note(&cards[i], config));
        i += 1;
    }
    notes
}

} // verus!

//! Durable, expiring session storage for a batch of reviewed cards, and the
//! batch-import bookkeeping.
//!
//! The session is one JSON document. Writing it is verified rendering;
//! reading it walks a parsed JSON tree and applies the version and age
//! rules. The file operations themselves live outside the library: callers
//! hand in the stored text and take back the decision.

use vstd::prelude::*;
use crate::convert::ForeignNote;
use crate::convert::NameOrId;
use crate::convert::spec_notetype_name;
use crate::parse::CardType;
use crate::text::dec_i64;
use crate::text::dec_u64;
use crate::text::digit_char;
use crate::text::push_char;
use crate::text::spec_dec_int;
use crate::text::spec_dec_nat;
use crate::text::str_eq;
use crate::json::JsonModel;
use crate::json::json_of;
use crate::json::jv_as_array;
use crate::json::jv_as_i64;
use crate::json::jv_as_str;
use crate::json::jv_as_u64;
use crate::json::jv_get;
use crate::json::jv_model;
use crate::json::jv_parse;
use crate::json::model_i64;
use crate::json::model_u64;
use crate::parse::str_entries;

verus! {

broadcast use vstd::string::group_string_axioms;

/// Session file format version for compatibility checking.
pub const SESSION_VERSION: u32 = 1;

/// Maximum session age in seconds (7 days).
pub const SESSION_MAX_AGE_SECS: i64 = 7 * 24 * 60 * 60;

/// Review status of one card.
#[derive(Debug, Clone, Copy, PartialEq, Eq, Structural)]
pub enum CardStatus {
    Pending,
    Approved,
    Rejected,
}

/// One card in a review session: a proposal plus its identity and review
/// status.
#[derive(Debug, Clone, PartialEq, Eq)]
pub struct ReviewedCard {
    /// Opaque identity for correlation with the review session.
    pub id: String,
    pub card_type: CardType,
    pub front: String,
    pub back: String,
    pub suggested_tags: Vec<String>,
    /// Only `Approved` cards are eligible for conversion and import.
    pub status: CardStatus,
}

/// Mathematical view of a reviewed card.
#[verifier::ext_equal]
pub struct ReviewedCardView {
    pub id: Seq<char>,
    pub card_type: CardType,
    pub front: Seq<char>,
    pub back: Seq<char>,
    pub suggested_tags: Seq<Seq<char>>,
    pub status: CardStatus,
}

impl View for ReviewedCard {
    type V = ReviewedCardView;

    open spec fn view(&self) -> ReviewedCardView {
        ReviewedCardView {
            id: self.id@,
            card_type: self.card_type,
            front: self.front@,
            back: self.back@,
            suggested_tags: self.suggested_tags.deep_view(),
            status: self.status,
        }
    }
}

impl DeepView for ReviewedCard {
    type V = ReviewedCardView;

    open spec fn deep_view(&self) -> ReviewedCardView {
        self.view()
    }
}

/// A durable record of an in-progress review batch.
#[derive(Debug, Clone, PartialEq, Eq)]
pub struct SessionSnapshot {
    /// Must equal the pipeline's current format version to be usable.
    pub version: u32,
    /// Unix seconds at which the snapshot was written.
    pub created_timestamp: i64,
    /// Name of the original input that produced the cards.
    pub source_name: String,
    /// The original input text itself.
    pub source_text: String,
    /// The review batch, identity and status preserved.
    pub cards: Vec<ReviewedCard>,
}

/// Mathematical view of a snapshot.
#[verifier::ext_equal]
pub struct SessionSnapshotView {
    pub version: u32,
    pub created_timestamp: i64,
    pub source_name: Seq<char>,
    pub source_text: Seq<char>,
    pub cards: Seq<ReviewedCardView>,
}

impl View for SessionSnapshot {
    type V = SessionSnapshotView;

    open spec fn view(&self) -> SessionSnapshotView {
        SessionSnapshotView {
            version: self.version,
            created_timestamp: self.created_timestamp,
            source_name: self.source_name@,
            source_text: self.source_text@,
            cards: self.cards.deep_view(),
        }
    }
}

/// The wire form of one card inside the session file.
#[verifier::ext_equal]
pub struct SessionCardView {
    pub id: Seq<char>,
    pub card_type: Seq<char>,
    pub front: Seq<char>,
    pub back: Seq<char>,
    pub suggested_tags: Seq<Seq<char>>,
    pub status: Seq<char>,
}

/// The wire text each status serializes to.
pub open spec fn spec_status_wire(s: CardStatus) -> Seq<char> {
    match s {
        CardStatus::Pending => "pending"@,
        CardStatus::Approved => "approved"@,
        CardStatus::Rejected => "rejected"@,
    }
}

/// The status a wire text deserializes to; unknown texts fall back to
/// `Pending`.
pub open spec fn spec_status_from_wire(s: Seq<char>) -> CardStatus {
    if s == "pending"@ {
        CardStatus::Pending
    } else if s == "approved"@ {
        CardStatus::Approved
    } else if s == "rejected"@ {
        CardStatus::Rejected
    } else {
        CardStatus::Pending
    }
}

/// The wire text each card type serializes to.
pub open spec fn spec_card_type_wire(t: CardType) -> Seq<char> {
    match t {
        CardType::Basic => "basic"@,
        CardType::BasicReversed => "basic_reversed"@,
        CardType::Cloze => "cloze"@,
    }
}

/// The card type a wire text deserializes to; unknown texts fall back to
/// `Basic`.
pub open spec fn spec_card_type_from_wire(s: Seq<char>) -> CardType {
    if s == "basic"@ {
        CardType::Basic
    } else if s == "basic_reversed"@ {
        CardType::BasicReversed
    } else if s == "cloze"@ {
        CardType::Cloze
    } else {
        CardType::Basic
    }
}

/// The wire form of a reviewed card.
pub open spec fn spec_card_to_wire(c: ReviewedCardView) -> SessionCardView {
    SessionCardView {
        id: c.id,
        card_type: spec_card_type_wire(c.card_type),
        front: c.front,
        back: c.back,
        suggested_tags: c.suggested_tags,
        status: spec_status_wire(c.status),
    }
}

/// The reviewed card a wire form deserializes to.
pub open spec fn spec_card_from_wire(w: SessionCardView) -> ReviewedCardView {
    ReviewedCardView {
        id: w.id,
        card_type: spec_card_type_from_wire(w.card_type),
        front: w.front,
        back: w.back,
        suggested_tags: w.suggested_tags,
        status: spec_status_from_wire(w.status),
    }
}

/// Serializing a status and reading it back yields the same status.
pub proof fn lemma_status_wire_round_trip(s: CardStatus)
    ensures
        spec_status_from_wire(spec_status_wire(s)) == s,
{
    reveal_strlit("pending");
    reveal_strlit("approved");
    reveal_strlit("rejected");
    assert("pending"@.len() == 7 && "approved"@.len() == 8 && "rejected"@.len() == 8);
    assert("approved"@[0] == 'a' && "rejected"@[0] == 'r');
}

/// Serializing a card type and reading it back yields the same card type.
pub proof fn lemma_card_type_wire_round_trip(t: CardType)
    ensures
        spec_card_type_from_wire(spec_card_type_wire(t)) == t,
{
    reveal_strlit("basic");
    reveal_strlit("basic_reversed");
    reveal_strlit("cloze");
    assert("basic"@.len() == 5 && "basic_reversed"@.len() == 14 && "cloze"@.len() == 5);
    assert("basic"@[0] == 'b' && "cloze"@[0] == 'c');
}

/// Taking a reviewed card through its wire form and back preserves it
/// whole: identity, content, tags and review status.
pub proof fn lemma_session_card_round_trip(c: ReviewedCardView)
    ensures
        spec_card_from_wire(spec_card_to_wire(c)) == c,
{
    lemma_status_wire_round_trip(c.status);
    lemma_card_type_wire_round_trip(c.card_type);
    assert(spec_card_from_wire(spec_card_to_wire(c)) =~= c);
}

/// Read a wire status text.
pub fn status_from_wire(s: &str) -> (r: CardStatus)
    ensures
        r == spec_status_from_wire(s@),
{
    if str_eq(s, "pending") {
        CardStatus::Pending
    } else if str_eq(s, "approved") {
        CardStatus::Approved
    } else if str_eq(s, "rejected") {
        CardStatus::Rejected
    } else {
        CardStatus::Pending
    }
}

/// Read a wire card-type text.
pub fn card_type_from_wire(s: &str) -> (r: CardType)
    ensures
        r == spec_card_type_from_wire(s@),
{
    if str_eq(s, "basic") {
        CardType::Basic
    } else if str_eq(s, "basic_reversed") {
        CardType::BasicReversed
    } else if str_eq(s, "cloze") {
        CardType::Cloze
    } else {
        CardType::Basic
    }
}

/// Write a status in its wire form.
pub fn status_to_wire(s: CardStatus) -> (r: String)
    ensures
        r@ == spec_status_wire(s),
{
    match s {
        CardStatus::Pending => String::from_str("pending"),
        CardStatus::Approved => String::from_str("approved"),
        CardStatus::Rejected => String::from_str("rejected"),
    }
}

/// Write a card type in its wire form.
pub fn card_type_to_wire(t: CardType) -> (r: String)
    ensures
        r@ == spec_card_type_wire(t),
{
    match t {
        CardType::Basic => String::from_str("basic"),
        CardType::BasicReversed => String::from_str("basic_reversed"),
        CardType::Cloze => String::from_str("cloze"),
    }
}

/// Whether a stored session is still usable: the format version matches and
/// the snapshot is at most the maximum age old.
pub open spec fn spec_session_usable(version: int, created: int, now: int) -> bool {
    version == SESSION_VERSION && now - created <= SESSION_MAX_AGE_SECS
}

/// Build a fresh snapshot of a review batch at the current format version.
pub fn new_session_snapshot(
    source_name: String,
    source_text: String,
    cards: Vec<ReviewedCard>,
    now: i64,
) -> (r: SessionSnapshot)
    ensures
        r.version == SESSION_VERSION,
        r.created_timestamp == now,
        r.source_name == source_name,
        r.source_text == source_text,
        r.cards == cards,
{
    SessionSnapshot { version: SESSION_VERSION, created_timestamp: now, source_name, source_text, cards }
}

/// The tag list an imported note carries: the provenance tag, then the
/// caller's additional tags, then the card's own suggested tags.
pub open spec fn spec_import_tags(card: ReviewedCardView, additional: Seq<Seq<char>>) -> Seq<
    Seq<char>,
> {
    seq!["ai-generated"@] + additional + card.suggested_tags
}

/// Everything an import-bound note satisfies: an empty guid for the importer
/// to assign, front and back as the two fields, the provenance-first tag
/// list, the notetype fixed by the card type, the deck by id, no overrides.
pub open spec fn spec_import_note(
    card: ReviewedCardView,
    deck_id: i64,
    additional: Seq<Seq<char>>,
    note: ForeignNote,
) -> bool {
    &&& note.guid@ == Seq::<char>::empty()
    &&& note.fields.deep_view() == seq![Some(card.front), Some(card.back)]
    &&& note.tags matches Some(ts) && ts.deep_view() == spec_import_tags(card, additional)
    &&& note.notetype@ matches crate::convert::NameOrIdView::Name(nm) && nm == spec_notetype_name(
        card.card_type,
    )
    &&& note.deck@ == crate::convert::NameOrIdView::Id(deck_id)
    &&& note.cards@.len() == 0
}

fn import_note_tags(card: &ReviewedCard, additional_tags: &Vec<String>) -> (r: Vec<String>)
    ensures
        r.deep_view() == spec_import_tags(card@, additional_tags.deep_view()),
{
    let mut tags: Vec<String> = Vec::new();
    tags.push(String::from_str("ai-generated"));
    proof {
        assert(tags.deep_view() =~~= seq!["ai-generated"@]);
    }
    crate::convert::copy_strings_into(&mut tags, additional_tags);
    crate::convert::copy_strings_into(&mut tags, &card.suggested_tags);
    proof {
        assert(tags.deep_view() =~~= spec_import_tags(card@, additional_tags.deep_view()));
    }
    tags
}

/// Plan the import of one reviewed card: `None` for a card that is not
/// approved, else the foreign note to hand to the importer.
pub fn plan_import_note(card: &ReviewedCard, deck_id: i64, additional_tags: &Vec<String>) -> (r:
    Option<ForeignNote>)
    ensures
        r is Some <==> card.status == CardStatus::Approved,
        r matches Some(note) ==> spec_import_note(
            card@,
            deck_id,
            additional_tags.deep_view(),
            note,
        ),
{
    if !matches!(card.status, CardStatus::Approved) {
        return None;
    }
    let tags = import_note_tags(card, additional_tags);
    let notetype = match card.card_type {
        CardType::Basic => NameOrId::Name(String::from_str("Basic")),
        CardType::BasicReversed => NameOrId::Name(String::from_str("Basic (and reversed card)")),
        CardType::Cloze => NameOrId::Name(String::from_str("Cloze")),
    };
    let mut fields: Vec<Option<String>> = Vec::new();
    fields.push(Some(card.front.clone()));
    fields.push(Some(card.back.clone()));
    proof {
        assert(fields.deep_view() =~~= seq![Some(card@.front), Some(card@.back)]);
    }
    Some(
        ForeignNote {
            guid: String::new(),
            fields,
            tags: Some(tags),
            notetype,
            deck: NameOrId::Id(deck_id),
            cards: Vec::new(),
        },
    )
}

/// The name under which a notetype reference is looked up: the name itself,
/// or the decimal rendering of the id.
pub fn notetype_lookup_name(n: &NameOrId) -> (r: String)
    ensures
        match n@ {
            crate::convert::NameOrIdView::Name(s) => r@ == s,
            crate::convert::NameOrIdView::Id(id) => r@ == crate::text::spec_dec_int(id as int),
        },
{
    match n {
        NameOrId::Name(s) => s.clone(),
        NameOrId::Id(id) => crate::text::dec_i64(*id),
    }
}

/// The error line recorded for a card whose import failed.
pub open spec fn spec_import_error_msg(id: Seq<char>, msg: Seq<char>) -> Seq<char> {
    "Failed to import card '"@ + id + "': "@ + msg
}

/// Running tally of one batch import: counts of imported and duplicate
/// cards, and one error line per failed card.
#[derive(Debug, Clone, PartialEq, Eq)]
pub struct ImportTally {
    pub imported: u32,
    pub duplicate: u32,
    pub errors: Vec<String>,
}

impl ImportTally {
    /// An empty tally.
    pub fn new() -> (r: Self)
        ensures
            r.imported == 0,
            r.duplicate == 0,
            r.errors@.len() == 0,
    {
        Self { imported: 0, duplicate: 0, errors: Vec::new() }
    }

    /// Record the outcome of importing one card: a success counts as
    /// imported or duplicate, a failure appends one error line naming the
    /// card.
    pub fn record(&mut self, card_id: &str, outcome: Result<bool, String>)
        requires
            old(self).imported < u32::MAX,
            old(self).duplicate < u32::MAX,
        ensures
            match outcome {
                Ok(true) => {
                    &&& final(self).duplicate == old(self).duplicate + 1
                    &&& final(self).imported == old(self).imported
                    &&& final(self).errors == old(self).errors
                },
                Ok(false) => {
                    &&& final(self).imported == old(self).imported + 1
                    &&& final(self).duplicate == old(self).duplicate
                    &&& final(self).errors == old(self).errors
                },
                Err(msg) => {
                    &&& final(self).imported == old(self).imported
                    &&& final(self).duplicate == old(self).duplicate
                    &&& final(self).errors@.len() == old(self).errors@.len() + 1
                    &&& final(self).errors@.subrange(0, old(self).errors@.len() as int) == old(
                        self,
                    ).errors@
                    &&& final(self).errors@.last()@ == spec_import_error_msg(card_id@, msg@)
                },
            },
    {
        match outcome {
            Ok(true) => {
                self.duplicate = self.duplicate + 1;
            },
            Ok(false) => {
                self.imported = self.imported + 1;
            },
            Err(msg) => {
                let mut line = String::from_str("Failed to import card '");
                line.append(card_id);
                line.append("': ");
                line.append(msg.as_str());
                self.errors.push(line);
                proof {
                    assert(self.errors@.subrange(0, old(self).errors@.len() as int) =~= old(
                        self,
                    ).errors@);
                }
            },
        }
    }
}

/// The lower-case hexadecimal digit character for a value below sixteen.
pub open spec fn hex_char(d: int) -> char {
    if d < 10 {
        digit_char(d)
    } else if d == 10 {
        'a'
    } else if d == 11 {
        'b'
    } else if d == 12 {
        'c'
    } else if d == 13 {
        'd'
    } else if d == 14 {
        'e'
    } else {
        'f'
    }
}

/// The JSON string-escape rendering of one character: quote and backslash
/// are escaped, the common control characters take their short forms, the
/// remaining control characters a `\u00..` form, everything else stands as
/// itself.
pub open spec fn esc_char(c: char) -> Seq<char> {
    if c == '"' {
        seq!['\\', '"']
    } else if c == '\\' {
        seq!['\\', '\\']
    } else if c == '\n' {
        seq!['\\', 'n']
    } else if c == '\r' {
        seq!['\\', 'r']
    } else if c == '\t' {
        seq!['\\', 't']
    } else if (c as u32) < 32 {
        seq!['\\', 'u', '0', '0', hex_char((c as u32) as int / 16), hex_char((c as u32) as int % 16)]
    } else {
        seq![c]
    }
}

/// The JSON string-escape rendering of a text.
pub open spec fn spec_escape(s: Seq<char>) -> Seq<char>
    decreases s.len(),
{
    if s.len() == 0 {
        Seq::empty()
    } else {
        spec_escape(s.drop_last()) + esc_char(s.last())
    }
}

/// A text as a quoted, escaped JSON string.
pub open spec fn spec_quoted(s: Seq<char>) -> Seq<char> {
    seq!['"'] + spec_escape(s) + seq!['"']
}

fn hex_char_exec(d: u32) -> (r: char)
    requires
        d < 16,
    ensures
        r == hex_char(d as int),
{
    if d < 10 {
        ((48 + d) as u8) as char
    } else {
        ((87 + d) as u8) as char
    }
}

fn escape_into(out: &mut String, s: &str)
    ensures
        final(out)@ == old(out)@ + spec_escape(s@),
{
    let n = s.unicode_len();
    let mut i: usize = 0;
    while i < n
        invariant
            i <= n,
            n == s@.len(),
            out@ =~= old(out)@ + spec_escape(s@.subrange(0, i as int)),
        decreases n - i,
    {
        let c = s.get_char(i);
        if c == '"' {
            push_char(out, '\\');
            push_char(out, '"');
        } else if c == '\\' {
            push_char(out, '\\');
            push_char(out, '\\');
        } else if c == '\n' {
            push_char(out, '\\');
            push_char(out, 'n');
        } else if c == '\r' {
            push_char(out, '\\');
            push_char(out, 'r');
        } else if c == '\t' {
            push_char(out, '\\');
            push_char(out, 't');
        } else if (c as u32) < 32 {
            push_char(out, '\\');
            push_char(out, 'u');
            push_char(out, '0');
            push_char(out, '0');
            push_char(out, hex_char_exec((c as u32) / 16));
            push_char(out, hex_char_exec((c as u32) % 16));
        } else {
            push_char(out, c);
        }
        proof {
            assert(s@.subrange(0, i + 1).drop_last() =~= s@.subrange(0, i as int));
            assert(s@.subrange(0, i + 1).last() == c);
            assert(out@ =~= old(out)@ + spec_escape(s@.subrange(0, i + 1)));
        }
        i += 1;
    }
    proof {
        assert(s@.subrange(0, n as int) =~= s@);
    }
}

fn quoted_into(out: &mut String, s: &str)
    ensures
        final(out)@ == old(out)@ + spec_quoted(s@),
{
    push_char(out, '"');
    escape_into(out, s);
    push_char(out, '"');
    proof {
        assert(out@ =~= old(out)@ + spec_quoted(s@));
    }
}

/// The rendering of a tag list: quoted strings joined by commas.
pub open spec fn spec_render_tags(ts: Seq<Seq<char>>) -> Seq<char>
    decreases ts.len(),
{
    if ts.len() == 0 {
        Seq::empty()
    } else if ts.len() == 1 {
        spec_quoted(ts[0])
    } else {
        spec_render_tags(ts.drop_last()) + seq![','] + spec_quoted(ts.last())
    }
}

/// The rendering of one card in its wire form.
pub open spec fn spec_render_card(w: SessionCardView) -> Seq<char> {
    "{\"id\":"@ + spec_quoted(w.id) + ",\"card_type\":"@ + spec_quoted(w.card_type)
        + ",\"front\":"@ + spec_quoted(w.front) + ",\"back\":"@ + spec_quoted(w.back)
        + ",\"suggested_tags\":["@ + spec_render_tags(w.suggested_tags) + "],\"status\":"@
        + spec_quoted(w.status) + "}"@
}

/// The rendering of the card list: card objects joined by commas.
pub open spec fn spec_render_cards(cs: Seq<SessionCardView>) -> Seq<char>
    decreases cs.len(),
{
    if cs.len() == 0 {
        Seq::empty()
    } else if cs.len() == 1 {
        spec_render_card(cs[0])
    } else {
        spec_render_cards(cs.drop_last()) + seq![','] + spec_render_card(cs.last())
    }
}

/// The rendering of a whole snapshot as one JSON document.
pub open spec fn spec_render_session(v: SessionSnapshotView) -> Seq<char> {
    "{\"version\":"@ + spec_dec_nat(v.version as int) + ",\"created_timestamp\":"@
        + spec_dec_int(v.created_timestamp as int) + ",\"source_name\":"@ + spec_quoted(
        v.source_name,
    ) + ",\"source_text\":"@ + spec_quoted(v.source_text) + ",\"cards\":["@ + spec_render_cards(
        v.cards.map_values(|c: ReviewedCardView| spec_card_to_wire(c)),
    ) + "]}"@
}

fn render_card_into(out: &mut String, card: &ReviewedCard)
    ensures
        final(out)@ == old(out)@ + spec_render_card(spec_card_to_wire(card@)),
{
    out.append("{\"id\":");
    quoted_into(out, card.id.as_str());
    out.append(",\"card_type\":");
    let ct = card_type_to_wire(card.card_type);
    quoted_into(out, ct.as_str());
    out.append(",\"front\":");
    quoted_into(out, card.front.as_str());
    out.append(",\"back\":");
    quoted_into(out, card.back.as_str());
    out.append(",\"suggested_tags\":[");
    let ghost tags = card@.suggested_tags;
    let mut i: usize = 0;
    let ghost mid = out@;
    while i < card.suggested_tags.len()
        invariant
            i <= card.suggested_tags@.len(),
            tags == card@.suggested_tags,
            tags.len() == card.suggested_tags@.len(),
            forall|k: int| 0 <= k < tags.len() ==> tags[k] == card.suggested_tags@[k]@,
            out@ =~= mid + spec_render_tags(tags.subrange(0, i as int)),
        decreases card.suggested_tags@.len() - i,
    {
        if i > 0 {
            push_char(out, ',');
        }
        quoted_into(out, card.suggested_tags[i].as_str());
        proof {
            let pre = tags.subrange(0, i as int);
            let pre1 = tags.subrange(0, i + 1);
            assert(pre1.drop_last() =~= pre);
            assert(pre1.last() == tags[i as int]);
            assert(out@ =~= mid + spec_render_tags(pre1));
        }
        i += 1;
    }
    proof {
        assert(tags.subrange(0, tags.len() as int) =~= tags);
    }
    out.append("],\"status\":");
    let st = status_to_wire(card.status);
    quoted_into(out, st.as_str());
    out.append("}");
    proof {
        assert(out@ =~= old(out)@ + spec_render_card(spec_card_to_wire(card@)));
    }
}

/// Render a snapshot as the session file's JSON document.
pub fn render_session(snap: &SessionSnapshot) -> (r: String)
    ensures
        r@ == spec_render_session(snap@),
{
    let mut out = String::from_str("{\"version\":");
    let v = dec_u64(snap.version as u64);
    out.append(v.as_str());
    out.append(",\"created_timestamp\":");
    let t = dec_i64(snap.created_timestamp);
    out.append(t.as_str());
    out.append(",\"source_name\":");
    quoted_into(&mut out, snap.source_name.as_str());
    out.append(",\"source_text\":");
    quoted_into(&mut out, snap.source_text.as_str());
    out.append(",\"cards\":[");
    let ghost wires = snap@.cards.map_values(|c: ReviewedCardView| spec_card_to_wire(c));
    let ghost mid = out@;
    let mut i: usize = 0;
    while i < snap.cards.len()
        invariant
            i <= snap.cards@.len(),
            wires == snap@.cards.map_values(|c: ReviewedCardView| spec_card_to_wire(c)),
            wires.len() == snap.cards@.len(),
            snap@.cards.len() == snap.cards@.len(),
            forall|k: int| 0 <= k < snap.cards@.len() ==> snap@.cards[k] == snap.cards@[k]@,
            out@ =~= mid + spec_render_cards(wires.subrange(0, i as int)),
        decreases snap.cards@.len() - i,
    {
        if i > 0 {
            push_char(&mut out, ',');
        }
        render_card_into(&mut out, &snap.cards[i]);
        proof {
            let pre = wires.subrange(0, i as int);
            let pre1 = wires.subrange(0, i + 1);
            assert(pre1.drop_last() =~= pre);
            assert(pre1.last() == wires[i as int]);
            assert(out@ =~= mid + spec_render_cards(pre1));
        }
        i += 1;
    }
    proof {
        assert(wires.subrange(0, wires.len() as int) =~= wires);
    }
    out.append("]}");
    proof {
        assert(out@ =~= spec_render_session(snap@));
    }
    out
}


/// The typed content of a stored session file, before status and card-type
/// texts are interpreted.
#[verifier::ext_equal]
pub struct SessionFileView {
    pub version: u32,
    pub created_timestamp: i64,
    pub source_name: Seq<char>,
    pub source_text: Seq<char>,
    pub cards: Seq<SessionCardView>,
}

/// The wire card a JSON value yields: an object with the six required
/// entries, the tags an all-string array. Any other shape fails the whole
/// document.
pub open spec fn session_card_of(m: JsonModel) -> Option<SessionCardView> {
    match m {
        JsonModel::Obj(o) => {
            if o.contains_key("id"@) && o["id"@] is Str && o.contains_key("card_type"@)
                && o["card_type"@] is Str && o.contains_key("front"@) && o["front"@] is Str
                && o.contains_key("back"@) && o["back"@] is Str && o.contains_key(
                "suggested_tags"@,
            ) && o["suggested_tags"@] is Arr && str_entries(o["suggested_tags"@]->Arr_0) is Some
                && o.contains_key("status"@) && o["status"@] is Str {
                Some(
                    SessionCardView {
                        id: o["id"@]->Str_0,
                        card_type: o["card_type"@]->Str_0,
                        front: o["front"@]->Str_0,
                        back: o["back"@]->Str_0,
                        suggested_tags: str_entries(o["suggested_tags"@]->Arr_0)->0,
                        status: o["status"@]->Str_0,
                    },
                )
            } else {
                None
            }
        },
        _ => None,
    }
}

/// The wire cards of an array of JSON values, all of which must be
/// well-shaped.
pub open spec fn session_cards_of(elems: Seq<JsonModel>) -> Option<Seq<SessionCardView>> {
    if forall|i: int| 0 <= i < elems.len() ==> session_card_of(#[trigger] elems[i]) is Some {
        Some(elems.map_values(|m: JsonModel| session_card_of(m)->0))
    } else {
        None
    }
}

/// The session file a JSON document yields: an object with an integral
/// `version` in `u32` range, an integral `created_timestamp` in `i64`
/// range, two string entries, and a card array.
pub open spec fn session_file_of(m: JsonModel) -> Option<SessionFileView> {
    match m {
        JsonModel::Obj(o) => {
            if o.contains_key("version"@) && (model_u64(o["version"@]) matches Some(ver) && ver
                <= u32::MAX) && o.contains_key("created_timestamp"@) && model_i64(
                o["created_timestamp"@],
            ) is Some && o.contains_key("source_name"@) && o["source_name"@] is Str
                && o.contains_key("source_text"@) && o["source_text"@] is Str && o.contains_key(
                "cards"@,
            ) && o["cards"@] is Arr && session_cards_of(o["cards"@]->Arr_0) is Some {
                Some(
                    SessionFileView {
                        version: model_u64(o["version"@])->0 as u32,
                        created_timestamp: model_i64(o["created_timestamp"@])->0,
                        source_name: o["source_name"@]->Str_0,
                        source_text: o["source_text"@]->Str_0,
                        cards: session_cards_of(o["cards"@]->Arr_0)->0,
                    },
                )
            } else {
                None
            }
        },
        _ => None,
    }
}

/// The snapshot a well-formed stored file restores to: wire texts
/// interpreted, everything else carried over.
pub open spec fn spec_loaded_snapshot(f: SessionFileView) -> SessionSnapshotView {
    SessionSnapshotView {
        version: f.version,
        created_timestamp: f.created_timestamp,
        source_name: f.source_name,
        source_text: f.source_text,
        cards: f.cards.map_values(|w: SessionCardView| spec_card_from_wire(w)),
    }
}

fn read_session_card(elem: &serde_json::Value) -> (r: Option<ReviewedCard>)
    ensures
        match r {
            Some(card) => {
                &&& session_card_of(jv_model(*elem)) matches Some(w)
                &&& card@ == spec_card_from_wire(w)
            },
            None => session_card_of(jv_model(*elem)) is None,
        },
{
    let id = match jv_get(elem, "id") {
        Some(x) => match jv_as_str(x) {
            Some(s) => s,
            None => {
                return None;
            },
        },
        None => {
            return None;
        },
    };
    let ct = match jv_get(elem, "card_type") {
        Some(x) => match jv_as_str(x) {
            Some(s) => s,
            None => {
                return None;
            },
        },
        None => {
            return None;
        },
    };
    let front = match jv_get(elem, "front") {
        Some(x) => match jv_as_str(x) {
            Some(s) => s,
            None => {
                return None;
            },
        },
        None => {
            return None;
        },
    };
    let back = match jv_get(elem, "back") {
        Some(x) => match jv_as_str(x) {
            Some(s) => s,
            None => {
                return None;
            },
        },
        None => {
            return None;
        },
    };
    let tags = match jv_get(elem, "suggested_tags") {
        Some(x) => match crate::parse::read_string_array(x) {
            Some(t) => t,
            None => {
                return None;
            },
        },
        None => {
            return None;
        },
    };
    let status = match jv_get(elem, "status") {
        Some(x) => match jv_as_str(x) {
            Some(s) => s,
            None => {
                return None;
            },
        },
        None => {
            return None;
        },
    };
    let card = ReviewedCard {
        id: id.to_owned(),
        card_type: card_type_from_wire(ct),
        front: front.to_owned(),
        back: back.to_owned(),
        suggested_tags: tags,
        status: status_from_wire(status),
    };
    proof {
        let m = jv_model(*elem);
        assert(session_card_of(m) is Some);
        assert(card@ =~= spec_card_from_wire(session_card_of(m)->0));
    }
    Some(card)
}

fn read_session_file(v: &serde_json::Value) -> (r: Option<SessionSnapshot>)
    ensures
        match r {
            Some(snap) => {
                &&& session_file_of(jv_model(*v)) matches Some(f)
                &&& snap@ == spec_loaded_snapshot(f)
            },
            None => session_file_of(jv_model(*v)) is None,
        },
{
    let version64 = match jv_get(v, "version") {
        Some(x) => match jv_as_u64(x) {
            Some(n) => n,
            None => {
                return None;
            },
        },
        None => {
            return None;
        },
    };
    if version64 > 0xFFFF_FFFFu64 {
        return None;
    }
    let version: u32 = version64 as u32;
    let created = match jv_get(v, "created_timestamp") {
        Some(x) => match jv_as_i64(x) {
            Some(n) => n,
            None => {
                return None;
            },
        },
        None => {
            return None;
        },
    };
    let source_name = match jv_get(v, "source_name") {
        Some(x) => match jv_as_str(x) {
            Some(s) => s.to_owned(),
            None => {
                return None;
            },
        },
        None => {
            return None;
        },
    };
    let source_text = match jv_get(v, "source_text") {
        Some(x) => match jv_as_str(x) {
            Some(s) => s.to_owned(),
            None => {
                return None;
            },
        },
        None => {
            return None;
        },
    };
    let cards_val = match jv_get(v, "cards") {
        Some(c) => c,
        None => {
            return None;
        },
    };
    let arr = match jv_as_array(cards_val) {
        Some(a) => a,
        None => {
            return None;
        },
    };
    let ghost elems = jv_model(*cards_val)->Arr_0;
    proof {
        assert(elems == arr@.map_values(|x: serde_json::Value| jv_model(x)));
    }
    let mut cards: Vec<ReviewedCard> = Vec::new();
    let mut i: usize = 0;
    while i < arr.len()
        invariant
            i <= arr.len(),
            elems == arr@.map_values(|x: serde_json::Value| jv_model(x)),
            jv_model(*cards_val) == JsonModel::Arr(elems),
            jv_model(*v) matches JsonModel::Obj(o) && o.contains_key("cards"@) && o["cards"@]
                == jv_model(*cards_val),
            cards@.len() == i,
            forall|k: int|
                0 <= k < i ==> session_card_of(#[trigger] elems[k]) is Some && cards.deep_view()[k]
                    == spec_card_from_wire(session_card_of(elems[k])->0),
        decreases arr.len() - i,
    {
        match read_session_card(&arr[i]) {
            Some(card) => {
                cards.push(card);
            },
            None => {
                proof {
                    assert(elems[i as int] == jv_model(arr@[i as int]));
                    assert(session_card_of(elems[i as int]) is None);
                    assert(session_cards_of(elems) is None);
                }
                return None;
            },
        }
        i += 1;
    }
    proof {
        assert(forall|k: int|
            0 <= k < elems.len() ==> session_card_of(#[trigger] elems[k]) is Some);
    }
    let snap = SessionSnapshot {
        version,
        created_timestamp: created,
        source_name,
        source_text,
        cards,
    };
    proof {
        let f = session_file_of(jv_model(*v))->0;
        assert(snap@.cards =~= f.cards.map_values(|w: SessionCardView| spec_card_from_wire(w)));
        assert(snap@ =~= spec_loaded_snapshot(f));
    }
    Some(snap)
}

/// The outcome of a load from the session store.
#[derive(Debug)]
pub enum SessionLoadOutcome {
    /// Nothing is stored; not an error.
    NoSession,
    /// The stored content is incompatible or expired: the caller must
    /// delete it and report no session.
    Invalidate,
    /// A usable snapshot.
    Session(SessionSnapshot),
    /// The stored content could not be read; a storage error for the
    /// caller to surface.
    Corrupt(String),
}

/// Interpret the stored session content, if any, against the current time.
///
/// Absence is a normal "no session" outcome, never an error. Unreadable
/// content is an error. A readable snapshot whose version differs from the
/// pipeline's, or whose age exceeds the maximum, must be deleted and
/// reported as no session: the caller never sees stale or incompatible
/// data.
pub fn load_session(content: Option<&str>, now: i64) -> (r: SessionLoadOutcome)
    ensures
        match content {
            None => r is NoSession,
            Some(text) => match json_of(text@) {
                None => r is Corrupt,
                Some(m) => match session_file_of(m) {
                    None => r is Corrupt,
                    Some(f) => if spec_session_usable(
                        f.version as int,
                        f.created_timestamp as int,
                        now as int,
                    ) {
                        r matches SessionLoadOutcome::Session(snap) && snap@
                            == spec_loaded_snapshot(f)
                    } else {
                        r is Invalidate
                    },
                },
            },
        },
{
    let text = match content {
        Some(t) => t,
        None => {
            return SessionLoadOutcome::NoSession;
        },
    };
    let v = match jv_parse(text) {
        Ok(v) => v,
        Err(e) => {
            return SessionLoadOutcome::Corrupt(e);
        },
    };
    let snap = match read_session_file(&v) {
        Some(s) => s,
        None => {
            return SessionLoadOutcome::Corrupt(
                String::from_str("session file shape did not match"),
            );
        },
    };
    if snap.version != SESSION_VERSION {
        return SessionLoadOutcome::Invalidate;
    }
    let age: i128 = (now as i128) - (snap.created_timestamp as i128);
    if age > (SESSION_MAX_AGE_SECS as i128) {
        return SessionLoadOutcome::Invalidate;
    }
    SessionLoadOutcome::Session(snap)
}


/// Taking a whole snapshot's cards through their wire forms and back
/// preserves the snapshot: what `save` writes, a well-formed `load`
/// restores content- and status-equal.
pub proof fn lemma_snapshot_wire_round_trip(v: SessionSnapshotView)
    ensures
        spec_loaded_snapshot(
            SessionFileView {
                version: v.version,
                created_timestamp: v.created_timestamp,
                source_name: v.source_name,
                source_text: v.source_text,
                cards: v.cards.map_values(|c: ReviewedCardView| spec_card_to_wire(c)),
            },
        ) == v,
{
    let wires = v.cards.map_values(|c: ReviewedCardView| spec_card_to_wire(c));
    let back = wires.map_values(|w: SessionCardView| spec_card_from_wire(w));
    assert forall|i: int| 0 <= i < v.cards.len() implies back[i] == v.cards[i] by {
        lemma_session_card_round_trip(v.cards[i]);
    }
    assert(back =~= v.cards);
    assert(spec_loaded_snapshot(
        SessionFileView {
            version: v.version,
            created_timestamp: v.created_timestamp,
            source_name: v.source_name,
            source_text: v.source_text,
            cards: wires,
        },
    ) =~= v);
}

} // verus!

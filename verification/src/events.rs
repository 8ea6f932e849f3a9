//! The GenAI event log: an append-only record of every art direction, every
//! generated image and every choice per card. What a card currently has (its
//! direction, its chosen art, its rollup) is read back from the log.

use vstd::prelude::*;
use crate::text::{chars_of, same_chars, string_of};

verus! {

/// One logged event, as stored.
pub struct Event {
    pub card_id: i64,
    pub action: String,
    pub artist: Option<String>,
    pub art_hash: Option<String>,
    pub prompt: Option<String>,
}

/// The action of an art direction generated or edited.
pub open spec fn direction_set() -> Seq<char> {
    "direction_set"@
}

/// The action of one artist's image generated.
pub open spec fn art_generated() -> Seq<char> {
    "art_generated"@
}

/// The action of an image's generation failing.
pub open spec fn art_failed() -> Seq<char> {
    "art_failed"@
}

/// The action of the user choosing an artist's art.
pub open spec fn chosen() -> Seq<char> {
    "chosen"@
}

/// The action of the user clearing the choice.
pub open spec fn unchosen() -> Seq<char> {
    "unchosen"@
}

/// The event kinds, as stored in the `action` column.
pub fn action_name(k: u8) -> (res: &'static str)
    requires
        k < 5,
    ensures
        res@ == (if k == 0 {
            direction_set()
        } else if k == 1 {
            art_generated()
        } else if k == 2 {
            art_failed()
        } else if k == 3 {
            chosen()
        } else {
            unchosen()
        }),
{
    if k == 0 {
        "direction_set"
    } else if k == 1 {
        "art_generated"
    } else if k == 2 {
        "art_failed"
    } else if k == 3 {
        "chosen"
    } else {
        "unchosen"
    }
}

/// The current art direction of a card in a log (oldest first): the prompt of
/// its latest `direction_set` event, if that event has one.
pub open spec fn direction_in(log: Seq<Event>, card: i64) -> Option<Seq<char>>
    decreases log.len(),
{
    if log.len() == 0 {
        None
    } else if log.last().card_id == card && log.last().action@ == direction_set() {
        match log.last().prompt {
            Some(p) => Some(p@),
            None => None,
        }
    } else {
        direction_in(log.drop_last(), card)
    }
}

/// The current choice of a card in a log (oldest first): its latest `chosen`
/// or `unchosen` event decides; a `chosen` one with an artist and a hash is the
/// choice, anything else means none.
pub open spec fn choice_in(log: Seq<Event>, card: i64) -> Option<(Seq<char>, Seq<char>)>
    decreases log.len(),
{
    if log.len() == 0 {
        None
    } else if log.last().card_id == card && (log.last().action@ == chosen()
        || log.last().action@ == unchosen()) {
        if log.last().action@ == chosen() {
            match (log.last().artist, log.last().art_hash) {
                (Some(a), Some(h)) => Some((a@, h@)),
                _ => None,
            }
        } else {
            None
        }
    } else {
        choice_in(log.drop_last(), card)
    }
}

fn is_action(e: &Event, a: &str) -> (b: bool)
    ensures
        b == (e.action@ == a@),
{
    same_chars(&chars_of(e.action.as_str()), &chars_of(a))
}

fn copy_str(s: &String) -> (r: String)
    ensures
        r@ == s@,
{
    string_of(&chars_of(s.as_str()))
}

/// The current art direction of a card (see [`direction_in`]).
pub fn current_direction(log: &Vec<Event>, card_id: i64) -> (res: Option<String>)
    ensures
        match direction_in(log@, card_id) {
            Some(p) => res matches Some(r) && r@ == p,
            None => res is None,
        },
{
    let mut i = log.len();
    assert(log@.take(log.len() as int) == log@);
    while i > 0
        invariant
            i <= log.len(),
            direction_in(log@.take(i as int), card_id) == direction_in(log@, card_id),
        decreases i,
    {
        let e = &log[i - 1];
        assert(log@.take(i as int).last() == *e);
        assert(log@.take(i as int).drop_last() == log@.take(i - 1));
        if e.card_id == card_id && is_action(e, "direction_set") {
            return match &e.prompt {
                Some(p) => Some(copy_str(p)),
                None => None,
            };
        }
        i -= 1;
    }
    None
}

/// The current choice `(artist, art_hash)` of a card (see [`choice_in`]).
pub fn current_choice(log: &Vec<Event>, card_id: i64) -> (res: Option<(String, String)>)
    ensures
        match choice_in(log@, card_id) {
            Some((a, h)) => res matches Some(r) && r.0@ == a && r.1@ == h,
            None => res is None,
        },
{
    let mut i = log.len();
    assert(log@.take(log.len() as int) == log@);
    while i > 0
        invariant
            i <= log.len(),
            choice_in(log@.take(i as int), card_id) == choice_in(log@, card_id),
        decreases i,
    {
        let e = &log[i - 1];
        assert(log@.take(i as int).last() == *e);
        assert(log@.take(i as int).drop_last() == log@.take(i - 1));
        if e.card_id == card_id && (is_action(e, "chosen") || is_action(e, "unchosen")) {
            if is_action(e, "chosen") {
                return match (&e.artist, &e.art_hash) {
                    (Some(a), Some(h)) => Some((copy_str(a), copy_str(h))),
                    _ => None,
                };
            }
            return None;
        }
        i -= 1;
    }
    None
}

/// After a `chosen` event with an artist and a hash is logged for a card, that
/// is the card's choice.
pub proof fn law_choose_then_read(log: Seq<Event>, e: Event)
    requires
        e.action@ == chosen(),
        e.artist is Some,
        e.art_hash is Some,
    ensures
        choice_in(log.push(e), e.card_id) == Some((e.artist.unwrap()@, e.art_hash.unwrap()@)),
{
    assert(log.push(e).last() == e);
}

/// After an `unchosen` event is logged for a card, the card has no choice.
pub proof fn law_unchoose_clears(log: Seq<Event>, e: Event)
    requires
        e.action@ == unchosen(),
    ensures
        choice_in(log.push(e), e.card_id) is None,
{
    assert(log.push(e).last() == e);
    reveal_strlit("chosen");
    reveal_strlit("unchosen");
    assert("chosen"@.len() != "unchosen"@.len());
    assert(e.action@ != chosen());
}

/// Logging an event for another card, or one that neither chooses nor
/// unchooses, leaves a card's choice as it was: nothing is ever lost by
/// appending.
pub proof fn law_choice_kept(log: Seq<Event>, e: Event, card: i64)
    requires
        e.card_id != card || (e.action@ != chosen() && e.action@ != unchosen()),
    ensures
        choice_in(log.push(e), card) == choice_in(log, card),
{
    assert(log.push(e).last() == e);
    assert(log.push(e).drop_last() == log);
}

/// After a `direction_set` event with a prompt is logged for a card, that
/// prompt is the card's direction; other events leave the direction as it was.
pub proof fn law_direction_then_read(log: Seq<Event>, e: Event, card: i64)
    ensures
        e.card_id == card && e.action@ == direction_set() && e.prompt is Some ==> direction_in(
            log.push(e),
            card,
        ) == Some(e.prompt.unwrap()@),
        e.card_id != card || e.action@ != direction_set() ==> direction_in(log.push(e), card)
            == direction_in(log, card),
{
    assert(log.push(e).last() == e);
    assert(log.push(e).drop_last() == log);
}

/// A card's rollup for the review dashboard.
pub struct CardStatus {
    /// How many images were generated.
    pub generated: usize,
    /// Whether an art direction was ever set.
    pub has_direction: bool,
    /// How many events the card has.
    pub events: usize,
    /// The artist of the current choice.
    pub chosen_artist: Option<String>,
}

/// How many events of `log` are for `card` and satisfy `p`.
pub open spec fn count_where(log: Seq<Event>, card: i64, p: spec_fn(Event) -> bool) -> nat
    decreases log.len(),
{
    if log.len() == 0 {
        0
    } else {
        count_where(log.drop_last(), card, p) + if log.last().card_id == card && p(log.last()) {
            1nat
        } else {
            0nat
        }
    }
}

/// The rollup of a card: its generated images, whether it ever had a
/// direction, its number of events, and the artist of its current choice.
pub open spec fn status_ok(s: CardStatus, log: Seq<Event>, card: i64) -> bool {
    &&& s.generated == count_where(log, card, |e: Event| e.action@ == art_generated())
    &&& s.has_direction == (count_where(log, card, |e: Event| e.action@ == direction_set()) > 0)
    &&& s.events == count_where(log, card, |e: Event| true)
    &&& match choice_in(log, card) {
        Some((a, _)) => s.chosen_artist matches Some(x) && x@ == a,
        None => s.chosen_artist is None,
    }
}

/// The dashboard rollup of one card (see [`status_ok`]).
pub fn card_status(log: &Vec<Event>, card_id: i64) -> (s: CardStatus)
    ensures
        status_ok(s, log@, card_id),
{
    let mut generated: usize = 0;
    let mut directions: usize = 0;
    let mut total: usize = 0;
    let mut i: usize = 0;
    while i < log.len()
        invariant
            i <= log.len(),
            generated == count_where(log@.take(i as int), card_id, |e: Event| e.action@ == art_generated()),
            directions == count_where(log@.take(i as int), card_id, |e: Event| e.action@ == direction_set()),
            total == count_where(log@.take(i as int), card_id, |e: Event| true),
            generated <= i && directions <= i && total <= i,
        decreases log.len() - i,
    {
        assert(log@.take(i + 1).drop_last() == log@.take(i as int));
        assert(log@.take(i + 1).last() == log@[i as int]);
        let e = &log[i];
        if e.card_id == card_id {
            total += 1;
            if is_action(e, "art_generated") {
                generated += 1;
            }
            if is_action(e, "direction_set") {
                directions += 1;
            }
        }
        i += 1;
    }
    assert(log@.take(log.len() as int) == log@);
    let chosen_artist = match current_choice(log, card_id) {
        Some((a, _)) => Some(a),
        None => None,
    };
    CardStatus { generated, has_direction: directions > 0, events: total, chosen_artist }
}

} // verus!

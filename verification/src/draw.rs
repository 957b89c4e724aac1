//! The card draw: the owner configures a deck of short cards; the deck of
//! the day is promoted once per day.
use vstd::prelude::*;
use crate::json::{Json, JVal};
use crate::outside::{debug_list, iso_date};
use crate::rejection::Rejection;
use crate::text::{push_char, text_eq, trim};

verus! {

pub const CARDS_MAX: usize = 12;
pub const CARD_MAX: usize = 160;

/// `s` cut at every line feed, as `str::split('\n')` cuts it: one piece
/// more than there are line feeds.
pub open spec fn split_lines(s: Seq<char>) -> Seq<Seq<char>>
    decreases s.len(),
{
    if s.len() == 0 {
        seq![Seq::empty()]
    } else {
        let r = split_lines(s.drop_last());
        if s.last() == '\n' {
            r.push(Seq::empty())
        } else {
            r.update(r.len() - 1, r.last().push(s.last()))
        }
    }
}

pub proof fn lemma_split_lines_nonempty(s: Seq<char>)
    ensures
        split_lines(s).len() >= 1,
    decreases s.len(),
{
    if s.len() > 0 {
        lemma_split_lines_nonempty(s.drop_last());
    }
}

/// The pieces of `s` between line feeds.
pub fn lines_of(s: &str) -> (r: Vec<String>)
    ensures
        r@.map_values(|x: String| x@) == split_lines(s@),
{
    let cs = crate::text::chars_of(s);
    let mut out: Vec<String> = Vec::new();
    let mut cur = String::new();
    for i in 0..cs.len()
        invariant
            cs@ == s@,
            out@.map_values(|x: String| x@).push(cur@) == split_lines(s@.take(i as int)),
    {
        let c = cs[i];
        let ghost prev = s@.take(i as int);
        assert(s@.take(i + 1).drop_last() =~= prev);
        proof {
            lemma_split_lines_nonempty(prev);
        }
        if c == '\n' {
            let done = cur;
            out.push(done);
            cur = String::new();
            assert(out@.map_values(|x: String| x@).push(cur@) =~= split_lines(s@.take(i + 1)));
        } else {
            let ghost before = cur@;
            push_char(&mut cur, c);
            assert(out@.map_values(|x: String| x@).push(cur@) =~= split_lines(s@.take(i + 1)));
        }
    }
    assert(s@.take(cs.len() as int) =~= s@);
    out.push(cur);
    out
}

/// A card fits: non-empty and at most `CARD_MAX` characters.
pub open spec fn card_fits(c: Seq<char>) -> bool {
    0 < c.len() <= CARD_MAX
}

/// The trimmed pieces that fit as cards, in order.
pub open spec fn fitting_cards(pieces: Seq<Seq<char>>) -> Seq<Seq<char>>
    decreases pieces.len(),
{
    if pieces.len() == 0 {
        Seq::empty()
    } else {
        let r = fitting_cards(pieces.drop_last());
        let c = crate::text::trimmed(pieces.last());
        if card_fits(c) {
            r.push(c)
        } else {
            r
        }
    }
}

/// The text items of an array, in order; other items are skipped.
pub open spec fn text_items(items: Seq<JVal>) -> Seq<Seq<char>>
    decreases items.len(),
{
    if items.len() == 0 {
        Seq::empty()
    } else {
        let r = text_items(items.drop_last());
        match items.last() {
            JVal::Str(s) => r.push(s),
            _ => r,
        }
    }
}

/// The deck a configuration describes: a text gives one candidate per
/// line, an array one per text item; candidates are trimmed, those that do
/// not fit are dropped, and the first `CARDS_MAX` form the deck.
pub open spec fn deck_spec(cfg: JVal) -> Seq<Seq<char>> {
    let all = match cfg {
        JVal::Str(s) => fitting_cards(split_lines(s)),
        JVal::Array(a) => fitting_cards(text_items(a)),
        _ => Seq::empty(),
    };
    if all.len() > CARDS_MAX {
        all.take(CARDS_MAX as int)
    } else {
        all
    }
}

fn fitting(pieces: &Vec<String>) -> (r: Vec<String>)
    ensures
        r@.map_values(|x: String| x@) == fitting_cards(pieces@.map_values(|x: String| x@)),
{
    let ghost ps = pieces@.map_values(|x: String| x@);
    let mut out: Vec<String> = Vec::new();
    for i in 0..pieces.len()
        invariant
            ps == pieces@.map_values(|x: String| x@),
            out@.map_values(|x: String| x@) == fitting_cards(ps.take(i as int)),
    {
        assert(ps.take(i + 1).drop_last() =~= ps.take(i as int));
        let c = trim(pieces[i].as_str());
        let n = c.as_str().unicode_len();
        if 0 < n && n <= CARD_MAX {
            out.push(c);
            assert(out@.map_values(|x: String| x@) =~= fitting_cards(ps.take(i + 1)));
        }
    }
    assert(ps.take(pieces.len() as int) =~= ps);
    out
}

fn string_items(items: &Vec<Json>) -> (r: Vec<String>)
    ensures
        r@.map_values(|x: String| x@) == text_items(crate::json::items_view(items@)),
{
    let ghost iv = crate::json::items_view(items@);
    let mut out: Vec<String> = Vec::new();
    for i in 0..items.len()
        invariant
            iv == crate::json::items_view(items@),
            out@.map_values(|x: String| x@) == text_items(iv.take(i as int)),
    {
        assert(iv.take(i + 1).drop_last() =~= iv.take(i as int));
        match &items[i] {
            Json::Str(s) => {
                out.push(s.clone());
                assert(out@.map_values(|x: String| x@) =~= text_items(iv.take(i + 1)));
            },
            _ => {},
        }
    }
    assert(iv.take(items.len() as int) =~= iv);
    out
}

/// The deck that a `draw` configuration value describes.
pub fn cards_from_cfg(cfg: &Json) -> (r: Vec<String>)
    ensures
        r@.map_values(|x: String| x@) == deck_spec(cfg@),
{
    let mut cards = match cfg {
        Json::Str(s) => {
            let pieces = lines_of(s.as_str());
            fitting(&pieces)
        },
        Json::Array(a) => {
            proof {
                crate::json::lemma_array_view(*a);
            }
            let texts = string_items(a);
            fitting(&texts)
        },
        _ => Vec::new(),
    };
    let ghost all = cards@.map_values(|x: String| x@);
    cards.truncate(CARDS_MAX);
    assert(cards@.map_values(|x: String| x@) =~= if all.len() > CARDS_MAX {
        all.take(CARDS_MAX as int)
    } else {
        all
    });
    cards
}

/// The deck of a profile with the draw switched on; refused when the
/// feature is off or the deck is empty (a missing `draw` value reads as an
/// empty text).
pub open spec fn draw_spec(settings: JVal) -> Result<Seq<Seq<char>>, Rejection> {
    if !crate::helpers::switched_on(settings, "draw"@) {
        Err(Rejection::FeatureOff)
    } else {
        let deck = deck_spec(
            match settings.get("draw"@) {
                Some(v) => v,
                None => JVal::Str(Seq::empty()),
            },
        );
        if deck.len() == 0 {
            Err(Rejection::NoDeck)
        } else {
            Ok(deck)
        }
    }
}

pub fn draw_deck(settings: &Json) -> (r: Result<Vec<String>, Rejection>)
    ensures
        match r {
            Ok(v) => draw_spec(settings@) == Ok::<Seq<Seq<char>>, Rejection>(
                v@.map_values(|x: String| x@),
            ),
            Err(e) => draw_spec(settings@) == Err::<Seq<Seq<char>>, Rejection>(e),
        },
{
    if !crate::helpers::feature_enabled(settings, "draw") {
        return Err(Rejection::FeatureOff);
    }
    let cards = match settings.get("draw") {
        Some(v) => cards_from_cfg(v),
        None => {
            let e = Json::Str(String::new());
            cards_from_cfg(&e)
        },
    };
    if cards.len() == 0 {
        return Err(Rejection::NoDeck);
    }
    Ok(cards)
}

/// The day key of Unix second `now_secs`: its UTC date as `YYYY-MM-DD`.
pub fn today_key(now_secs: i64) -> (r: Option<String>)
    ensures
        match r {
            Some(s) => crate::outside::utc_iso_date(now_secs) == Some(s@),
            None => crate::outside::utc_iso_date(now_secs) is None,
        },
{
    iso_date(now_secs)
}

/// The fingerprint of a deck: its `Debug` text.
pub fn deck_fingerprint(cards: &Vec<String>) -> (r: String)
    ensures
        r@ == crate::outside::debug_text_of(cards@.map_values(|x: String| x@)),
{
    debug_list(cards)
}

/// What a view writes to the stored draw state.
#[derive(PartialEq, Eq, Structural, Clone, Copy, Debug)]
pub enum DrawWrite {
    /// A new day: store the day, the deck and its fingerprint.
    Promote,
    /// Same day, changed fingerprint: store the day and the fingerprint.
    Refresh,
    /// Nothing changed.
    Keep,
}

pub open spec fn draw_write_spec(stored_day: Seq<char>, today: Seq<char>, stored_fp: Seq<char>, deck_fp: Seq<
    char,
>) -> DrawWrite {
    if stored_day != today {
        DrawWrite::Promote
    } else if stored_fp != deck_fp {
        DrawWrite::Refresh
    } else {
        DrawWrite::Keep
    }
}

/// The deck is promoted lazily, once per day; on the same day a changed
/// fingerprint is refreshed.
pub fn draw_write(stored_day: &str, today: &str, stored_fp: &str, deck_fp: &str) -> (r: DrawWrite)
    ensures
        r == draw_write_spec(stored_day@, today@, stored_fp@, deck_fp@),
{
    if !text_eq(stored_day, today) {
        DrawWrite::Promote
    } else if !text_eq(stored_fp, deck_fp) {
        DrawWrite::Refresh
    } else {
        DrawWrite::Keep
    }
}

/// The stored day of the draw state, empty when none.
pub fn stored_day(state: &Json) -> (r: String)
    ensures
        r@ == match state@.str_at("day"@) {
            Some(d) => d,
            None => Seq::empty(),
        },
{
    match state.str_at("day") {
        Some(d) => String::from_str(d),
        None => String::new(),
    }
}


proof fn lemma_fitting_cards_fit(pieces: Seq<Seq<char>>)
    ensures
        forall|i: int|
            0 <= i < fitting_cards(pieces).len() ==> card_fits(#[trigger] fitting_cards(pieces)[i]),
        fitting_cards(pieces).len() <= pieces.len(),
    decreases pieces.len(),
{
    if pieces.len() > 0 {
        lemma_fitting_cards_fit(pieces.drop_last());
    }
}

/// A deck holds at most `CARDS_MAX` cards, each non-empty and at most
/// `CARD_MAX` characters long.
pub proof fn lemma_deck_fits(cfg: JVal)
    ensures
        deck_spec(cfg).len() <= CARDS_MAX,
        forall|i: int| 0 <= i < deck_spec(cfg).len() ==> card_fits(#[trigger] deck_spec(cfg)[i]),
{
    match cfg {
        JVal::Str(s) => lemma_fitting_cards_fit(split_lines(s)),
        JVal::Array(a) => lemma_fitting_cards_fit(text_items(a)),
        _ => {},
    }
}


/// The deck is promoted at most once a day: on the day already stored, a
/// view never promotes again, and an unchanged fingerprint writes nothing.
pub proof fn lemma_promoted_once_per_day(day: Seq<char>, stored_fp: Seq<char>, deck_fp: Seq<char>)
    ensures
        draw_write_spec(day, day, stored_fp, deck_fp) != DrawWrite::Promote,
        draw_write_spec(day, day, deck_fp, deck_fp) == DrawWrite::Keep,
{
}

} // verus!

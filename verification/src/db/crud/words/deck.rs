//! Decks: the visibility of a new deck and the card rows of a deck update.
use vstd::prelude::*;

use crate::ids::{is_fresh_id, new_id};
use crate::models::cards_decks::{CardUpdate, DeckCreate};
use crate::text::clone_opt_string;
use crate::types::opt_string_view;

verus! {

/// `assigned`
pub open spec fn assigned_visibility() -> Seq<char> {
    seq!['a', 's', 's', 'i', 'g', 'n', 'e', 'd']
}

/// `private`
pub open spec fn private_visibility() -> Seq<char> {
    seq!['p', 'r', 'i', 'v', 'a', 't', 'e']
}

/// The visibility of a new deck: the requested one, else `assigned` for a deck with an
/// assignee and `private` for one without.
pub open spec fn new_deck_visibility(create: DeckCreate) -> Seq<char> {
    match create.visibility {
        Some(v) => v@,
        None => if create.assignee is Some {
            assigned_visibility()
        } else {
            private_visibility()
        },
    }
}

/// Chooses the visibility of a new deck (see `new_deck_visibility`).
pub fn deck_visibility(create: &DeckCreate) -> (r: String)
    ensures
        r@ == new_deck_visibility(*create),
        create.visibility matches Some(v) ==> r@ == v@,
        create.visibility is None && create.assignee is Some ==> r@ == seq!['a', 's', 's', 'i', 'g', 'n', 'e', 'd'],
        create.visibility is None && create.assignee is None ==> r@ == seq!['p', 'r', 'i', 'v', 'a', 't', 'e'],
{
    proof {
        reveal_strlit("assigned");
        reveal_strlit("private");
        assert("assigned"@ =~= assigned_visibility());
        assert("private"@ =~= private_visibility());
    }
    match &create.visibility {
        Some(v) => v.clone(),
        None => if create.assignee.is_some() {
            String::from_str("assigned")
        } else {
            String::from_str("private")
        },
    }
}

/// A card row to insert or overwrite.
pub struct CardRow {
    pub id: String,
    pub front: Option<String>,
    pub back: Option<String>,
    pub media_url: Option<String>,
}

/// The rows of a deck update: the cards that stay (those that came with an id) and the
/// row of every submitted card.
pub struct CardRows {
    pub kept_ids: Vec<String>,
    pub rows: Vec<CardRow>,
}

/// The ids that came with the submitted cards, in order.
pub open spec fn submitted_ids(cards: Seq<CardUpdate>) -> Seq<Seq<char>>
    decreases cards.len(),
{
    if cards.len() == 0 {
        Seq::empty()
    } else {
        let prev = submitted_ids(cards.drop_last());
        match cards.last().id {
            Some(id) => prev.push(id@),
            None => prev,
        }
    }
}

/// Whether `row` is the row of the submitted card `card`: its own id, or a fresh one
/// for a new card, and its fields.
pub open spec fn is_row_of(row: CardRow, card: CardUpdate) -> bool {
    &&& match card.id {
        Some(id) => row.id@ == id@,
        None => is_fresh_id(row.id@),
    }
    &&& opt_string_view(row.front) == opt_string_view(card.front)
    &&& opt_string_view(row.back) == opt_string_view(card.back)
    &&& opt_string_view(row.media_url) == opt_string_view(card.media_url)
}

/// The rows of a deck update: the cards that are not submitted are deleted, and every
/// submitted card is written under its id (a new card under a fresh one).
pub fn card_rows(cards: &Vec<CardUpdate>) -> (r: CardRows)
    ensures
        r.kept_ids@.map_values(|s: String| s@) == submitted_ids(cards@),
        r.rows.len() == cards.len(),
        forall|k: int| 0 <= k < cards.len() ==> is_row_of(#[trigger] r.rows[k], cards[k]),
        forall|k: int| 0 <= k < cards.len() ==> {
            &&& opt_string_view((#[trigger] r.rows[k]).front) == opt_string_view(cards[k].front)
            &&& opt_string_view(r.rows[k].back) == opt_string_view(cards[k].back)
            &&& opt_string_view(r.rows[k].media_url) == opt_string_view(cards[k].media_url)
            &&& (cards[k].id matches Some(id) ==> r.rows[k].id@ == id@)
        },
{
    let mut kept_ids: Vec<String> = Vec::new();
    let mut rows: Vec<CardRow> = Vec::new();
    let mut k: usize = 0;
    while k < cards.len()
        invariant
            0 <= k <= cards.len(),
            kept_ids@.map_values(|s: String| s@) == submitted_ids(cards@.subrange(0, k as int)),
            rows.len() == k,
            forall|q: int| 0 <= q < k ==> is_row_of(#[trigger] rows[q], cards[q]),
        decreases cards.len() - k,
    {
        let card = &cards[k];
        let ghost pre = cards@.subrange(0, k as int);
        assert(cards@.subrange(0, k + 1).drop_last() =~= pre);
        assert(cards@.subrange(0, k + 1).last() == *card);
        let ghost before = kept_ids@;
        let id = match &card.id {
            Some(id) => {
                kept_ids.push(id.clone());
                assert(kept_ids@.map_values(|s: String| s@) =~= before.map_values(|s: String| s@).push(id@));
                id.clone()
            },
            None => new_id(),
        };
        rows.push(CardRow {
            id,
            front: clone_opt_string(&card.front),
            back: clone_opt_string(&card.back),
            media_url: clone_opt_string(&card.media_url),
        });
        k = k + 1;
    }
    assert(cards@.subrange(0, cards.len() as int) =~= cards@);
    CardRows { kept_ids, rows }
}

/// A deck update writes each submitted card as it came: the row keeps the card's id
/// (a new card gets a fresh one), and its front, back and media link.
pub proof fn lemma_rows_carry_submitted_cards(row: CardRow, card: CardUpdate)
    requires
        is_row_of(row, card),
    ensures
        opt_string_view(row.front) == opt_string_view(card.front),
        opt_string_view(row.back) == opt_string_view(card.back),
        opt_string_view(row.media_url) == opt_string_view(card.media_url),
        card.id matches Some(id) ==> row.id@ == id@,
        card.id is None ==> row.id@.len() == 21,
{
}

proof fn lemma_submitted_id_listed(cards: Seq<CardUpdate>, k: int)
    requires
        0 <= k < cards.len(),
        cards[k].id is Some,
    ensures
        submitted_ids(cards).contains(cards[k].id->0@),
    decreases cards.len(),
{
    let prev = cards.drop_last();
    if k == cards.len() - 1 {
        let ids = submitted_ids(cards);
        assert(ids[ids.len() - 1] == cards[k].id->0@);
    } else {
        assert(prev[k] == cards[k]);
        lemma_submitted_id_listed(prev, k);
        let p = submitted_ids(prev);
        let j = choose|j: int| 0 <= j < p.len() && p[j] == cards[k].id->0@;
        let ids = submitted_ids(cards);
        assert(ids[j] == p[j]);
    }
}

/// A deck update never deletes a card it writes back: the row of every submitted card
/// that came with an id carries an id among the kept ones.
pub proof fn lemma_written_cards_are_kept(cards: Seq<CardUpdate>, r: CardRows, k: int)
    requires
        r.kept_ids@.map_values(|s: String| s@) == submitted_ids(cards),
        r.rows.len() == cards.len(),
        forall|q: int| 0 <= q < cards.len() ==> is_row_of(#[trigger] r.rows[q], cards[q]),
        0 <= k < cards.len(),
        cards[k].id is Some,
    ensures
        r.kept_ids@.map_values(|s: String| s@).contains(r.rows[k].id@),
{
    lemma_submitted_id_listed(cards, k);
    assert(is_row_of(r.rows[k], cards[k]));
}

} // verus!

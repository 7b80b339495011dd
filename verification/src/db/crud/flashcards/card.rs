//! The column arrays of a batch card upsert.
use vstd::prelude::*;

use crate::ids::{is_fresh_id, new_id};
use crate::text::clone_opt_string;
use crate::types::opt_string_view;

verus! {

/// A card to insert or overwrite; a card without `id` is new.
pub struct CardUpsert {
    pub id: Option<String>,
    pub front: String,
    pub back: String,
    pub media_url: Option<String>,
}

/// The columns of a batch upsert, one entry per card.
pub struct CardColumns {
    pub ids: Vec<String>,
    pub fronts: Vec<String>,
    pub backs: Vec<String>,
    pub media_urls: Vec<Option<String>>,
}

/// Whether entry `k` of the columns holds `card`: its id (a fresh one for a new card)
/// and its fields.
pub open spec fn holds_card(c: CardColumns, k: int, card: CardUpsert) -> bool {
    &&& match card.id {
        Some(id) => c.ids[k]@ == id@,
        None => is_fresh_id(c.ids[k]@),
    }
    &&& c.fronts[k]@ == card.front@
    &&& c.backs[k]@ == card.back@
    &&& opt_string_view(c.media_urls[k]) == opt_string_view(card.media_url)
}

/// A batch upsert writes each card as it came: entry `k` of the columns holds card
/// `k`'s id (a fresh one for a new card), front, back and media link.
pub proof fn lemma_columns_carry_cards(c: CardColumns, k: int, card: CardUpsert)
    requires
        holds_card(c, k, card),
    ensures
        c.fronts[k]@ == card.front@,
        c.backs[k]@ == card.back@,
        opt_string_view(c.media_urls[k]) == opt_string_view(card.media_url),
        card.id matches Some(id) ==> c.ids[k]@ == id@,
        card.id is None ==> c.ids[k]@.len() == 21,
{
}

/// Splits the cards of a batch upsert into column arrays; a new card gets a fresh id.
pub fn card_columns(cards: &Vec<CardUpsert>) -> (r: CardColumns)
    ensures
        r.ids.len() == cards.len(),
        r.fronts.len() == cards.len(),
        r.backs.len() == cards.len(),
        r.media_urls.len() == cards.len(),
        forall|k: int| 0 <= k < cards.len() ==> holds_card(r, k, #[trigger] cards[k]),
        forall|k: int| 0 <= k < cards.len() ==> {
            &&& r.fronts[k]@ == (#[trigger] cards[k]).front@
            &&& r.backs[k]@ == cards[k].back@
            &&& opt_string_view(r.media_urls[k]) == opt_string_view(cards[k].media_url)
            &&& (cards[k].id matches Some(id) ==> r.ids[k]@ == id@)
        },
{
    let mut c = CardColumns { ids: Vec::new(), fronts: Vec::new(), backs: Vec::new(), media_urls: Vec::new() };
    let mut k: usize = 0;
    while k < cards.len()
        invariant
            0 <= k <= cards.len(),
            c.ids.len() == k,
            c.fronts.len() == k,
            c.backs.len() == k,
            c.media_urls.len() == k,
            forall|q: int| 0 <= q < k ==> holds_card(c, q, #[trigger] cards[q]),
        decreases cards.len() - k,
    {
        let card = &cards[k];
        let id = match &card.id {
            Some(id) => id.clone(),
            None => new_id(),
        };
        c.ids.push(id);
        c.fronts.push(card.front.clone());
        c.backs.push(card.back.clone());
        c.media_urls.push(clone_opt_string(&card.media_url));
        k = k + 1;
    }
    c
}

} // verus!

//! Flash-card and deck payloads of the first deck API. Instants are microseconds since
//! the epoch.
use vstd::prelude::*;

use crate::models::users::failure_if;
use crate::validation::{
    failed_fields, finish_validation, note_failure, range_ok, validate_range, ValidationErrors,
};

verus! {

/// A card as stored.
pub struct CardBody {
    pub id: String,
    pub front: String,
    pub back: String,
    pub media_url: Option<String>,
    pub deck_id: String,
    pub created_at: i64,
}

/// A new card.
pub struct CardCreateBody {
    pub front: String,
    pub back: String,
    pub media_url: Option<String>,
}

/// A card in a deck update; a card without `id` is new.
pub struct CardUpdate {
    pub id: Option<String>,
    pub front: Option<String>,
    pub back: Option<String>,
    pub media_url: Option<String>,
}

/// A deck with its cards.
pub struct DeckWithCards {
    pub deck: DeckBody,
    pub cards: Vec<CardBody>,
}

/// An update of a deck and of its whole list of cards.
pub struct DeckWithCardsUpdate {
    pub deck: DeckUpdate,
    pub cards: Vec<CardUpdate>,
}

/// A deck as stored.
pub struct DeckBody {
    pub id: String,
    pub name: String,
    pub description: Option<String>,
    pub shared: bool,
    pub created_by: String,
    pub created_at: i64,
}

/// A new deck.
pub struct DeckCreateBody {
    pub name: String,
    pub description: Option<String>,
    pub shared: Option<bool>,
}

/// A partial update of a deck; absent fields stay as they are.
pub struct DeckUpdate {
    pub name: Option<String>,
    pub description: Option<String>,
    pub shared: Option<bool>,
}

/// A request to start learning a card.
pub struct CardProgressCreate {
    pub card_id: String,
}

/// The grade given to a card in a review.
pub struct ReviewPayload {
    pub card_id: String,
    pub quality: i32,
}

/// `quality`
pub open spec fn quality_field() -> Seq<char> {
    seq!['q', 'u', 'a', 'l', 'i', 't', 'y']
}

/// The fields of a review that break its rules: a quality from 0 to 5.
pub open spec fn review_failures(quality: i32) -> Seq<Seq<char>> {
    failure_if(range_ok(quality as int, Some(0), Some(5)), quality_field())
}

/// A review is accepted exactly when its grade is 0 to 5.
pub proof fn lemma_review_rules(quality: i32)
    ensures
        review_failures(quality).len() == 0 <==> (0 <= quality <= 5),
{
}

/// Checks that a review grade lies in `[0, 5]`.
pub fn validate_quality(quality: i32) -> (r: Result<(), ValidationErrors>)
    ensures
        r is Ok <==> review_failures(quality).len() == 0,
        r matches Err(e) ==> failed_fields(e) == review_failures(quality),
{
    proof {
        reveal_strlit("quality");
        assert("quality"@ =~= quality_field());
    }
    let mut fields: Vec<String> = Vec::new();
    assert(fields@.map_values(|f: String| f@) =~= Seq::<Seq<char>>::empty());
    note_failure(&mut fields, validate_range(quality as i64, Some(0), Some(5)), "quality");
    assert(fields@.map_values(|f: String| f@) =~= review_failures(quality));
    finish_validation(fields)
}

impl ReviewPayload {
    /// Checks the review rules; the error lists every field that breaks them.
    pub fn validate(&self) -> (r: Result<(), ValidationErrors>)
        ensures
            r is Ok <==> review_failures(self.quality).len() == 0,
            r matches Err(e) ==> failed_fields(e) == review_failures(self.quality),
    {
        validate_quality(self.quality)
    }
}

} // verus!

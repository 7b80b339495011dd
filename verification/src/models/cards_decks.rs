//! Flash-card, deck and learning payloads. Instants are microseconds since the epoch.
use vstd::prelude::*;

use crate::models::cards::{review_failures, validate_quality};
use crate::validation::{failed_fields, ValidationErrors};

verus! {

/// Filtering of a deck list.
pub struct DeckFilterParams {
    pub search: Option<String>,
    pub assignee: Option<String>,
}

/// Learning figures of a user.
pub struct SimpleStats {
    pub cards_studied_today: i32,
    pub current_streak: i32,
}

/// The learning part of the dashboard.
pub struct LearnDataDashboard {
    pub stats: SimpleStats,
    pub due_cards: Option<i64>,
}

/// A card.
pub struct Card {
    pub id: String,
    pub front: String,
    pub back: String,
    pub media_url: Option<String>,
    pub deck_id: String,
    pub created_at: i64,
}

/// A new card.
pub struct CardCreate {
    pub front: String,
    pub back: String,
    pub media_url: Option<String>,
}

/// A card in a deck update; a card without `id` is new.
pub struct CardUpdate {
    pub id: Option<String>,
    pub front: Option<String>,
    pub back: Option<String>,
    pub media_url: Option<String>,
}

/// A deck with its cards and whether the reader follows it.
pub struct DeckWithCardsAndSubscription {
    pub deck: DeckFull,
    pub cards: Vec<Card>,
    pub is_subscribed: bool,
}

/// An update of a deck and of its whole list of cards.
pub struct DeckWithCardsUpdate {
    pub deck: DeckUpdate,
    pub cards: Vec<CardUpdate>,
}

/// A deck with all its fields.
pub struct DeckFull {
    pub id: String,
    pub name: String,
    pub description: Option<String>,
    pub visibility: String,
    pub assignee: Option<String>,
    pub is_subscribed: Option<bool>,
    pub created_by: String,
    pub created_at: i64,
}

/// A deck in a list.
pub struct DeckSmall {
    pub id: String,
    pub name: String,
    pub assignee_name: Option<String>,
    pub is_subscribed: Option<bool>,
    pub seen: Option<bool>,
    pub visibility: String,
    pub description: Option<String>,
}

/// A public deck.
pub struct DeckPublic {
    pub id: String,
    pub name: String,
    pub description: Option<String>,
}

/// A new deck.
pub struct DeckCreate {
    pub name: String,
    pub description: Option<String>,
    pub visibility: Option<String>,
    pub assignee: Option<String>,
}

/// A partial update of a deck; absent fields stay as they are.
pub struct DeckUpdate {
    pub name: Option<String>,
    pub description: Option<String>,
    pub visibility: Option<String>,
    pub assignee: Option<String>,
}

/// The grade given to a card in a review.
pub struct ReviewPayload {
    pub quality: i32,
}

impl ReviewPayload {
    /// Checks the review rules; the error lists every field that breaks them.
    pub fn validate(&self) -> (r: Result<(), ValidationErrors>)
        ensures
            r is Ok <==> review_failures(self.quality).len() == 0,
            r matches Err(e) ==> failed_fields(e) == review_failures(self.quality),
    {
        validate_quality(self.quality)
    }
}

} // verus!

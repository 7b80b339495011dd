//! The kinds of tracked objects and actions, and their stored labels.
use vstd::prelude::*;

verus! {

/// The kind of object an activity or a seen-mark is about.
#[derive(Debug, Clone, Copy, PartialEq, Eq, Structural)]
pub enum ModelType {
    Lesson,
    Task,
    Deck,
    Word,
}

/// The stored label of an object kind.
pub open spec fn model_type_label(m: ModelType) -> Seq<char> {
    match m {
        ModelType::Lesson => seq!['l', 'e', 's', 's', 'o', 'n'],
        ModelType::Task => seq!['t', 'a', 's', 'k'],
        ModelType::Deck => seq!['d', 'e', 'c', 'k'],
        ModelType::Word => seq!['w', 'o', 'r', 'd'],
    }
}

impl ModelType {
    /// The label stored for this kind: `lesson`, `task`, `deck` or `word`.
    pub fn as_str(&self) -> (r: &'static str)
        ensures
            r@ == model_type_label(*self),
    {
        proof {
            reveal_strlit("lesson");
            reveal_strlit("task");
            reveal_strlit("deck");
            reveal_strlit("word");
        }
        let r = match self {
            ModelType::Lesson => "lesson",
            ModelType::Task => "task",
            ModelType::Deck => "deck",
            ModelType::Word => "word",
        };
        assert(r@ =~= model_type_label(*self));
        r
    }
}

/// What was done to an object.
#[derive(Debug, Clone, Copy, PartialEq, Eq, Structural)]
pub enum ActionType {
    Delete,
    Create,
    Update,
    Complete,
    Subscribe,
    Unsubscribe,
}

/// The stored label of an action.
pub open spec fn action_type_label(a: ActionType) -> Seq<char> {
    match a {
        ActionType::Delete => seq!['d', 'e', 'l', 'e', 't', 'e', 'd'],
        ActionType::Create => seq!['n', 'e', 'w'],
        ActionType::Update => seq!['u', 'p', 'd', 'a', 't', 'e', 'd'],
        ActionType::Complete => seq!['c', 'o', 'm', 'p', 'l', 'e', 't', 'e', 'd'],
        ActionType::Subscribe => seq!['s', 'u', 'b', 's', 'c', 'r', 'i', 'b', 'e', 'd'],
        ActionType::Unsubscribe => seq!['u', 'n', 's', 'u', 'b', 's', 'c', 'r', 'i', 'b', 'e', 'd'],
    }
}

impl ActionType {
    /// The label stored for this action: `deleted`, `new`, `updated`, `completed`,
    /// `subscribed` or `unsubscribed`.
    pub fn as_str(&self) -> (r: &'static str)
        ensures
            r@ == action_type_label(*self),
    {
        proof {
            reveal_strlit("deleted");
            reveal_strlit("new");
            reveal_strlit("updated");
            reveal_strlit("completed");
            reveal_strlit("subscribed");
            reveal_strlit("unsubscribed");
        }
        let r = match self {
            ActionType::Delete => "deleted",
            ActionType::Create => "new",
            ActionType::Update => "updated",
            ActionType::Complete => "completed",
            ActionType::Subscribe => "subscribed",
            ActionType::Unsubscribe => "unsubscribed",
        };
        assert(r@ =~= action_type_label(*self));
        r
    }
}

/// Different object kinds are stored under different labels, so a stored label names
/// exactly one kind.
pub proof fn lemma_model_type_labels_distinct(a: ModelType, b: ModelType)
    requires
        a != b,
    ensures
        model_type_label(a) != model_type_label(b),
{
    let la = model_type_label(a);
    let lb = model_type_label(b);
    if la.len() == lb.len() {
        assert(la[0] != lb[0]);
    }
}

/// Different actions are stored under different labels, so a stored label names
/// exactly one action.
pub proof fn lemma_action_type_labels_distinct(a: ActionType, b: ActionType)
    requires
        a != b,
    ensures
        action_type_label(a) != action_type_label(b),
{
    let la = action_type_label(a);
    let lb = action_type_label(b);
    if la.len() == lb.len() {
        assert(la[0] != lb[0] || la[1] != lb[1]);
    }
}

/// An entry of the activity log. `created_at` is in microseconds since the epoch.
pub struct ActivityLog {
    pub model_type: String,
    pub model_id: String,
    pub action: String,
    pub created_at: Option<i64>,
}

} // verus!

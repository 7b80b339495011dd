use ogonek::db::crud::account::user::{classify_signup_error, classify_update_error, lookup_error, signup_error, update_error};
use ogonek::db::crud::files::file::{file_exists_result, found_file, upload_complete_result, upload_path};
use ogonek::db::crud::flashcards::card::{card_columns, CardUpsert};
use ogonek::db::crud::tasks::task::found_task;
use ogonek::db::crud::words::deck::{card_rows, deck_visibility};
use ogonek::db::error::DbError;
use ogonek::models::files::File;
use ogonek::db::helpers::{search_pattern, FromQuery};
use ogonek::models::cards::ReviewPayload as CardReviewPayload;
use ogonek::models::cards_decks::{CardUpdate, DeckCreate, ReviewPayload};
use ogonek::models::lessons::{lesson_assignee, LessonCreate, LessonSmall, PaginationParams};
use ogonek::models::tasks::{TaskFull, TaskPaginationParams, TaskSmall};
use ogonek::models::tracking::{ActionType, ModelType};
use ogonek::models::users::{AuthPayload, InviteToken, SignUpPayload, TokenPair, TokenWithExpiry, User};
use ogonek::models::{PaginatedLessons, PaginatedResponse, PaginatedTasks};
use ogonek::text::{find_str, i64_to_decimal, str_eq, trim_str};

fn lesson_params(page: Option<i64>, per_page: Option<i64>) -> PaginationParams {
    PaginationParams { page, per_page, search: None, assignee: None }
}

#[test]
fn pagination_defaults() {
    let p = lesson_params(None, None);
    assert_eq!(p.limit(), 50);
    assert_eq!(p.page(), 1);
    assert_eq!(p.offset(), 0);
}

#[test]
fn pagination_clamps() {
    assert_eq!(lesson_params(None, Some(0)).limit(), 1);
    assert_eq!(lesson_params(None, Some(-5)).limit(), 1);
    assert_eq!(lesson_params(None, Some(500)).limit(), 100);
    assert_eq!(lesson_params(Some(0), None).page(), 1);
    assert_eq!(lesson_params(Some(-3), Some(10)).offset(), 0);
    assert_eq!(lesson_params(Some(3), Some(20)).offset(), 40);
}

#[test]
fn pages_tile() {
    for page in 1..5 {
        let this = lesson_params(Some(page), Some(25));
        let next = lesson_params(Some(page + 1), Some(25));
        assert_eq!(next.offset(), this.offset() + this.limit());
    }
}

#[test]
fn task_pagination() {
    let p = TaskPaginationParams { page: Some(2), per_page: Some(10), search: None, priority: None, completed: None, assignee: None };
    assert_eq!(p.limit(), 10);
    assert_eq!(p.page(), 2);
    assert_eq!(p.offset(), 10);
    let q = TaskPaginationParams { page: None, per_page: Some(1000), search: None, priority: None, completed: None, assignee: None };
    assert_eq!(q.limit(), 100);
    assert_eq!(q.offset(), 0);
}

#[test]
fn labels() {
    assert_eq!(ModelType::Lesson.as_str(), "lesson");
    assert_eq!(ModelType::Task.as_str(), "task");
    assert_eq!(ModelType::Deck.as_str(), "deck");
    assert_eq!(ModelType::Word.as_str(), "word");
    assert_eq!(ActionType::Delete.as_str(), "deleted");
    assert_eq!(ActionType::Create.as_str(), "new");
    assert_eq!(ActionType::Update.as_str(), "updated");
    assert_eq!(ActionType::Complete.as_str(), "completed");
    assert_eq!(ActionType::Subscribe.as_str(), "subscribed");
    assert_eq!(ActionType::Unsubscribe.as_str(), "unsubscribed");
}

fn signup(name: &str, email: &str, pass: &str, username: &str) -> SignUpPayload {
    SignUpPayload {
        name: name.to_string(),
        email: email.to_string(),
        pass: pass.to_string(),
        username: username.to_string(),
        role: "student".to_string(),
    }
}

#[test]
fn signup_validation() {
    assert!(signup("Ann", "ann@example.com", "password", "an").validate().is_ok());
    let e = signup("An", "not-an-email", "short", "a").validate().err().unwrap();
    assert_eq!(e.fields, vec!["name", "email", "pass", "username"]);
    let e = signup("Anna", "", "password1", "anna").validate().err().unwrap();
    assert_eq!(e.fields, vec!["email"]);
    // Lengths count characters, not bytes.
    assert!(signup("Юля", "yulia@example.com", "пароль12", "юл").validate().is_ok());
}

#[test]
fn auth_validation() {
    let ok = AuthPayload { username: "alice".to_string(), pass: "12345678".to_string() };
    assert!(ok.validate().is_ok());
    let long = AuthPayload { username: "a".repeat(17), pass: "p".repeat(33) };
    assert_eq!(long.validate().err().unwrap().fields, vec!["username", "pass"]);
    let short = AuthPayload { username: "ab".to_string(), pass: "1234567".to_string() };
    assert_eq!(short.validate().err().unwrap().fields, vec!["username", "pass"]);
}

#[test]
fn review_validation() {
    for q in 0..=5 {
        assert!(ReviewPayload { quality: q }.validate().is_ok());
    }
    assert_eq!(ReviewPayload { quality: 6 }.validate().err().unwrap().fields, vec!["quality"]);
    assert_eq!(
        CardReviewPayload { card_id: "c".to_string(), quality: -1 }.validate().err().unwrap().fields,
        vec!["quality"]
    );
}

fn task(priority: i16) -> TaskFull {
    TaskFull {
        id: "t".to_string(),
        title: "title".to_string(),
        markdown: "md".to_string(),
        priority,
        completed: false,
        created_at: 0,
        updated_at: 0,
        due_date: None,
        created_by: "u".to_string(),
        assignee: "u".to_string(),
        assignee_name: "User".to_string(),
    }
}

#[test]
fn task_priority_validation() {
    assert!(task(1).validate().is_ok());
    assert!(task(3).validate().is_ok());
    assert_eq!(task(0).validate().err().unwrap().fields, vec!["priority"]);
    assert_eq!(task(4).validate().err().unwrap().fields, vec!["priority"]);
}

#[test]
fn token_pair_keeps_both_tokens() {
    let pair = TokenPair::new(
        TokenWithExpiry { token: "access".to_string(), expires_at: 10 },
        TokenWithExpiry { token: "refresh".to_string(), expires_at: 20 },
    );
    assert_eq!(pair.access_token.token, "access");
    assert_eq!(pair.access_token.expires_at, 10);
    assert_eq!(pair.refresh_token.token, "refresh");
    assert_eq!(pair.refresh_token.expires_at, 20);
}

#[test]
fn invite_token_is_stamped_now() {
    let token = InviteToken::new("teacher".to_string());
    assert_eq!(token.teacher_id, "teacher");
    // Later than 2024-01-01.
    assert!(token.created_at > 1_704_067_200_000_000);
}

#[test]
fn deck_visibility_defaults() {
    let mut create = DeckCreate { name: "d".to_string(), description: None, visibility: None, assignee: None };
    assert_eq!(deck_visibility(&create), "private");
    create.assignee = Some("s".to_string());
    assert_eq!(deck_visibility(&create), "assigned");
    create.visibility = Some("public".to_string());
    assert_eq!(deck_visibility(&create), "public");
}

fn card(id: Option<&str>, front: &str) -> CardUpdate {
    CardUpdate { id: id.map(|s| s.to_string()), front: Some(front.to_string()), back: Some("b".to_string()), media_url: None }
}

#[test]
fn deck_update_rows() {
    let cards = vec![card(Some("c1"), "one"), card(None, "two"), card(Some("c3"), "three")];
    let r = card_rows(&cards);
    assert_eq!(r.kept_ids, vec!["c1", "c3"]);
    assert_eq!(r.rows.len(), 3);
    assert_eq!(r.rows[0].id, "c1");
    assert_eq!(r.rows[1].id.chars().count(), 21);
    assert_ne!(r.rows[1].id, "c1");
    assert_eq!(r.rows[1].front.as_deref(), Some("two"));
    assert_eq!(r.rows[2].id, "c3");
    for row in &r.rows {
        if row.id != "c1" && row.id != "c3" {
            assert!(row.id.chars().all(|c| c == '_' || c == '-' || c.is_ascii_alphanumeric()));
        }
    }
}

#[test]
fn batch_columns() {
    let cards = vec![
        CardUpsert { id: Some("x".to_string()), front: "f1".to_string(), back: "b1".to_string(), media_url: None },
        CardUpsert { id: None, front: "f2".to_string(), back: "b2".to_string(), media_url: Some("m".to_string()) },
    ];
    let c = card_columns(&cards);
    assert_eq!(c.ids[0], "x");
    assert_eq!(c.ids[1].len(), 21);
    assert_eq!(c.fronts, vec!["f1", "f2"]);
    assert_eq!(c.backs, vec!["b1", "b2"]);
    assert_eq!(c.media_urls, vec![None, Some("m".to_string())]);
    let empty = card_columns(&vec![]);
    assert!(empty.ids.is_empty());
}

#[test]
fn account_conflicts() {
    let e = classify_update_error(sqlx::Error::RowNotFound, Some("user_username_key".to_string()));
    assert!(matches!(e, DbError::AlreadyExists(ref m) if m == "Username already taken"));
    let e = classify_update_error(sqlx::Error::RowNotFound, Some("user_email_key".to_string()));
    assert!(matches!(e, DbError::AlreadyExists(ref m) if m == "Email already taken"));
    let e = classify_signup_error(sqlx::Error::RowNotFound, Some("user_email_key".to_string()));
    assert!(matches!(e, DbError::AlreadyExists(ref m) if m == "Email already registered"));
    let e = classify_update_error(sqlx::Error::RowNotFound, Some("other_key".to_string()));
    assert!(matches!(e, DbError::Database(sqlx::Error::RowNotFound)));
    let e = classify_signup_error(sqlx::Error::PoolClosed, None);
    assert!(matches!(e, DbError::Database(sqlx::Error::PoolClosed)));
    // A driver error that is not a database error names no constraint.
    assert!(matches!(update_error(sqlx::Error::PoolTimedOut), DbError::Database(sqlx::Error::PoolTimedOut)));
    assert!(matches!(signup_error(sqlx::Error::PoolTimedOut), DbError::Database(sqlx::Error::PoolTimedOut)));
}

#[test]
fn driver_errors() {
    assert!(matches!(DbError::from_sqlx(sqlx::Error::RowNotFound), DbError::NotFound(ref m) if m == "Resource not found"));
    assert!(matches!(DbError::from_sqlx(sqlx::Error::PoolClosed), DbError::Database(sqlx::Error::PoolClosed)));
    assert!(matches!(DbError::from_sqlx_kind(sqlx::Error::PoolClosed, true), DbError::NotFound(_)));
}

#[test]
fn file_checks() {
    assert!(file_exists_result(true).is_ok());
    assert!(matches!(file_exists_result(false), Err(DbError::NotFound(ref m)) if m == "File not found"));
    assert!(upload_complete_result(1).is_ok());
    assert!(matches!(upload_complete_result(0), Err(DbError::NotFound(ref m)) if m == "File not found or unauthorized"));
}

#[test]
fn task_lookup() {
    assert_eq!(found_task(Some(task(2))).ok().unwrap().priority, 2);
    assert!(matches!(found_task(None), Err(DbError::NotFound(ref m)) if m == "Task not found"));
}

fn user(id: &str) -> User {
    User {
        id: id.to_string(),
        name: "n".to_string(),
        username: "u".to_string(),
        email: "e".to_string(),
        pass: "p".to_string(),
        role: "r".to_string(),
    }
}

#[test]
fn first_row_of_a_query() {
    assert_eq!(User::from_query_result(vec![user("a"), user("b")]).ok().unwrap().id, "a");
    assert!(matches!(User::from_query_result(vec![]), Err(DbError::TransactionFailed)));
}

#[test]
fn paginated_conversions() {
    let tasks = PaginatedResponse {
        data: vec![TaskSmall {
            id: "t".to_string(),
            title: "x".to_string(),
            priority: 1,
            completed: false,
            assignee_name: "a".to_string(),
            seen: None,
            due_date: None,
        }],
        total: 7,
        page: 2,
        per_page: 5,
    };
    let p: PaginatedTasks = tasks.into();
    assert_eq!((p.total, p.page, p.per_page, p.data.len()), (7, 2, 5, 1));
    let lessons = PaginatedResponse {
        data: vec![LessonSmall {
            id: "l".to_string(),
            title: "x".to_string(),
            topic: "y".to_string(),
            assignee_name: "a".to_string(),
            seen: Some(true),
            created_at: 0,
        }],
        total: 1,
        page: 1,
        per_page: 50,
    };
    let p = PaginatedLessons::from(lessons);
    assert_eq!(p.data[0].id, "l");
}

#[test]
fn lesson_assignee_defaults_to_creator() {
    let mut create = LessonCreate { title: "t".to_string(), topic: "t".to_string(), markdown: "m".to_string(), assignee: None };
    assert_eq!(lesson_assignee("me", &create), "me");
    create.assignee = Some("student".to_string());
    assert_eq!(lesson_assignee("me", &create), "student");
}

#[test]
fn text_helpers() {
    assert_eq!(trim_str("  a b \t\n"), "a b");
    assert_eq!(trim_str("\u{3000}x\u{2028}"), "x");
    assert_eq!(trim_str("   "), "");
    assert!(str_eq("abc", "abc"));
    assert!(!str_eq("abc", "abd"));
    assert_eq!(find_str("aUNTIL=UNTIL=", "UNTIL="), Some(1));
    assert_eq!(find_str("abc", "x"), None);
    assert_eq!(find_str("abc", ""), Some(0));
    assert_eq!(i64_to_decimal(0), "0");
    assert_eq!(i64_to_decimal(-42), "-42");
    assert_eq!(i64_to_decimal(i64::MIN), i64::MIN.to_string());
    assert_eq!(i64_to_decimal(i64::MAX), i64::MAX.to_string());
}

#[test]
fn search_patterns_match_anywhere() {
    assert_eq!(search_pattern("verb"), "%verb%");
    assert_eq!(search_pattern(""), "%%");
    assert_eq!(search_pattern("100%_"), "%100%_%");
}

#[test]
fn upload_paths_start_at_the_root() {
    assert_eq!(upload_path("notes.pdf"), "/notes.pdf");
    assert_eq!(upload_path(""), "/");
}

#[test]
fn file_lookup() {
    let f = File {
        id: "f1".to_string(),
        name: "notes.pdf".to_string(),
        s3_key: "k/f1".to_string(),
        path: "/notes.pdf".to_string(),
        mime_type: Some("application/pdf".to_string()),
        size: 10,
        is_folder: false,
        parent_id: None,
        owner_id: "u1".to_string(),
        upload_status: Some("complete".to_string()),
        visibility: "private".to_string(),
        created_at: 0,
        updated_at: 0,
    };
    assert_eq!(found_file(Some(f)).ok().unwrap().id, "f1");
    match found_file(None) {
        Err(DbError::NotFound(m)) => assert_eq!(m, "File not found"),
        _ => panic!("expected NotFound"),
    }
}

#[derive(Debug)]
struct UniqueViolation {
    constraint: &'static str,
}

impl std::fmt::Display for UniqueViolation {
    fn fmt(&self, f: &mut std::fmt::Formatter<'_>) -> std::fmt::Result {
        f.write_str("duplicate key value violates unique constraint")
    }
}

impl std::error::Error for UniqueViolation {}

impl sqlx::error::DatabaseError for UniqueViolation {
    fn message(&self) -> &str {
        "duplicate key value violates unique constraint"
    }
    fn as_error(&self) -> &(dyn std::error::Error + Send + Sync + 'static) {
        self
    }
    fn as_error_mut(&mut self) -> &mut (dyn std::error::Error + Send + Sync + 'static) {
        self
    }
    fn into_error(self: Box<Self>) -> Box<dyn std::error::Error + Send + Sync + 'static> {
        self
    }
    fn constraint(&self) -> Option<&str> {
        Some(self.constraint)
    }
    fn kind(&self) -> sqlx::error::ErrorKind {
        sqlx::error::ErrorKind::UniqueViolation
    }
}

fn violation(constraint: &'static str) -> sqlx::Error {
    sqlx::Error::Database(Box::new(UniqueViolation { constraint }))
}

#[test]
fn account_write_errors_name_the_taken_field() {
    let taken = |e: DbError| match e {
        DbError::AlreadyExists(m) => m,
        _ => panic!("expected AlreadyExists"),
    };
    assert_eq!(taken(update_error(violation("user_username_key"))), "Username already taken");
    assert_eq!(taken(update_error(violation("user_email_key"))), "Email already taken");
    assert_eq!(taken(signup_error(violation("user_username_key"))), "Username already taken");
    assert_eq!(taken(signup_error(violation("user_email_key"))), "Email already registered");
    assert!(matches!(update_error(violation("deck_pkey")), DbError::Database(sqlx::Error::Database(_))));
    assert!(matches!(signup_error(violation("deck_pkey")), DbError::Database(sqlx::Error::Database(_))));
}

#[test]
fn missing_account_stays_a_driver_error() {
    assert!(matches!(lookup_error(sqlx::Error::RowNotFound), DbError::Database(sqlx::Error::RowNotFound)));
    assert!(matches!(lookup_error(sqlx::Error::PoolClosed), DbError::Database(sqlx::Error::PoolClosed)));
}

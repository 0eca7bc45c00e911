use pollster::error::{AppError, ErrorKind, ErrorResponse};
use pollster::model::{DeltaOutcome, Poll, PollOption};
use pollster::projector::{StreamAction, StreamTracker};
use pollster::registration::RegisterStartRequest;

#[test]
fn status_codes_follow_the_taxonomy() {
    assert_eq!(ErrorKind::Validation.status_code(), 400);
    assert_eq!(ErrorKind::BadRequest.status_code(), 400);
    assert_eq!(ErrorKind::NotFound.status_code(), 404);
    assert_eq!(ErrorKind::Conflict.status_code(), 409);
    assert_eq!(ErrorKind::Forbidden.status_code(), 403);
    assert_eq!(ErrorKind::Internal.status_code(), 500);
    assert_eq!(ErrorKind::Database.status_code(), 500);
    assert_eq!(ErrorKind::Authentication.status_code(), 401);
}

#[test]
fn client_sees_message_of_client_errors() {
    let r = ErrorResponse::from_error(&AppError::NotFound("Poll not found".to_string()));
    assert_eq!(r.error, "NOT_FOUND");
    assert_eq!(r.message, "Poll not found");
    assert!(r.details.is_none());
}

#[test]
fn client_sees_opaque_text_of_server_errors() {
    let r = ErrorResponse::from_error(&AppError::InternalError("disk on fire".to_string()));
    assert_eq!(r.error, "INTERNAL_ERROR");
    assert_eq!(r.message, "An internal error occurred");
    let d = ErrorResponse::from_error(&AppError::DatabaseError("timeout".to_string()));
    assert_eq!(d.error, "DATABASE_ERROR");
    assert_eq!(d.message, "Database operation failed");
}

#[test]
fn describe_puts_heading_before_message() {
    let e = AppError::Conflict("already voted".to_string());
    assert_eq!(e.describe(), "Conflict: already voted");
    let f = AppError::Forbidden("not yours".to_string());
    assert_eq!(f.describe(), "Forbidden: not yours");
}

fn poll(total: u64, closed: bool) -> Poll {
    Poll {
        id: 0,
        question: "q".to_string(),
        creator_id: "c".to_string(),
        options: vec![
            PollOption { id: 0, text: "a".to_string(), votes: total },
            PollOption { id: 1, text: "b".to_string(), votes: 0 },
        ],
        is_closed: closed,
        created_at: 0,
        total_votes: total,
    }
}

#[test]
fn stream_emits_only_on_change_and_ends_after_close() {
    let mut t = StreamTracker::new();
    assert!(matches!(t.observe(Some(poll(0, false))), StreamAction::Emit(_)));
    assert!(matches!(t.observe(Some(poll(0, false))), StreamAction::Skip));
    match t.observe(Some(poll(3, false))) {
        StreamAction::Emit(p) => assert_eq!(p.total_votes, 3),
        _ => panic!("expected an emitted snapshot"),
    }
    assert!(matches!(t.observe(Some(poll(3, true))), StreamAction::Emit(_)));
    assert!(matches!(t.observe(Some(poll(3, true))), StreamAction::End));
}

#[test]
fn stream_ends_when_poll_is_gone() {
    let mut t = StreamTracker::new();
    assert!(matches!(t.observe(None), StreamAction::End));
}

#[test]
fn subscriptions_keep_their_own_state() {
    let mut a = StreamTracker::new();
    let mut b = StreamTracker::new();
    assert!(matches!(a.observe(Some(poll(1, false))), StreamAction::Emit(_)));
    assert!(matches!(b.observe(Some(poll(1, false))), StreamAction::Emit(_)));
    assert!(matches!(a.observe(Some(poll(1, false))), StreamAction::Skip));
}

#[test]
fn option_delta_moves_counter_and_total() {
    let mut p = poll(2, false);
    assert_eq!(p.apply_option_delta(1, 1), DeltaOutcome::Modified);
    assert_eq!(p.options[1].votes, 1);
    assert_eq!(p.total_votes, 3);
    assert_eq!(p.apply_option_delta(0, -2), DeltaOutcome::Modified);
    assert_eq!(p.options[0].votes, 0);
    assert_eq!(p.total_votes, 1);
}

#[test]
fn option_delta_reports_no_match_and_unmodified() {
    let mut p = poll(0, false);
    assert_eq!(p.apply_option_delta(5, 1), DeltaOutcome::NoMatch);
    assert_eq!(p.apply_option_delta(0, -1), DeltaOutcome::Unmodified);
    assert_eq!(p.apply_option_delta(0, 0), DeltaOutcome::Unmodified);
    assert_eq!(p.total_votes, 0);
}

#[test]
fn registration_request_lengths() {
    let ok = RegisterStartRequest { username: "bob".to_string(), display_name: "Bo".to_string() };
    assert!(ok.validate().is_ok());
    let short = RegisterStartRequest { username: "bo".to_string(), display_name: "Bo".to_string() };
    assert_eq!(short.validate().unwrap_err().kind(), ErrorKind::Validation);
    let empty = RegisterStartRequest { username: "bob".to_string(), display_name: String::new() };
    assert_eq!(empty.validate().unwrap_err().kind(), ErrorKind::Validation);
}

#[test]
fn uptime_splits_into_units() {
    let u = pollster::health::uptime_parts(90061);
    assert_eq!((u.days, u.hours, u.minutes, u.seconds), (1, 1, 1, 1));
    let z = pollster::health::uptime_parts(59);
    assert_eq!((z.days, z.hours, z.minutes, z.seconds), (0, 0, 0, 59));
}

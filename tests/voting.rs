use pollster::coordinator::{
    cast_vote, change_vote, check_user_vote, close_poll, create_poll, get_all_polls, get_poll,
    get_polls_by_user, reset_poll, CastVoteRequest, Claims, VoteStore,
};
use pollster::creation::CreatePollRequest;
use pollster::error::ErrorKind;
use pollster::model::Poll;

fn claims(who: &str) -> Claims {
    Claims { sub: who.to_string(), exp: 0 }
}

fn vote(option_id: u64, who: &str) -> CastVoteRequest {
    CastVoteRequest { option_id, user_id: who.to_string() }
}

fn request(question: &str, options: &[&str], creator: &str) -> CreatePollRequest {
    CreatePollRequest {
        question: question.to_string(),
        options: options.iter().map(|s| s.to_string()).collect(),
        creator_id: creator.to_string(),
    }
}

fn counts(p: &Poll) -> Vec<u64> {
    p.options.iter().map(|o| o.votes).collect()
}

fn sum_holds(p: &Poll) -> bool {
    p.options.iter().map(|o| o.votes).sum::<u64>() == p.total_votes
}

fn store_with_color_poll() -> (VoteStore, u64) {
    let mut store = VoteStore::new();
    let p = create_poll(&mut store, request("Best color?", &["Red", "Blue"], "u1")).unwrap();
    (store, p.id)
}

#[test]
fn end_to_end_color_poll() {
    let mut store = VoteStore::new();
    let p = create_poll(&mut store, request("Best color?", &["Red", "Blue"], "u1")).unwrap();
    assert_eq!(p.question, "Best color?");
    assert_eq!(p.creator_id, "u1");
    assert_eq!(p.options.len(), 2);
    assert_eq!(p.options[0].text, "Red");
    assert_eq!(p.options[1].text, "Blue");
    assert_eq!(counts(&p), vec![0, 0]);
    assert_eq!(p.total_votes, 0);
    assert!(!p.is_closed);
    let (o1, o2) = (p.options[0].id, p.options[1].id);

    let after_vote = cast_vote(&mut store, p.id, &claims("u2"), &vote(o1, "u2")).unwrap();
    assert_eq!(after_vote.total_votes, 1);
    assert_eq!(after_vote.options[0].votes, 1);

    let after_change = change_vote(&mut store, p.id, &claims("u2"), &vote(o2, "u2")).unwrap();
    assert_eq!(counts(&after_change), vec![0, 1]);
    assert_eq!(after_change.total_votes, 1);

    let closed = close_poll(&mut store, p.id, &claims("u1")).unwrap();
    assert!(closed.is_closed);
    let rejected = cast_vote(&mut store, p.id, &claims("u3"), &vote(o1, "u3"));
    assert_eq!(rejected.unwrap_err().kind(), ErrorKind::BadRequest);

    let reset = reset_poll(&mut store, p.id, &claims("u1")).unwrap();
    assert_eq!(counts(&reset), vec![0, 0]);
    assert_eq!(reset.total_votes, 0);
    assert!(!reset.is_closed);
    let status = check_user_vote(&store, p.id, &claims("u2"));
    assert!(!status.has_voted);
    assert_eq!(status.option_id, None);
}

#[test]
fn distinct_voters_each_count_once() {
    let (mut store, pid) = store_with_color_poll();
    let users = ["a", "b", "c", "d", "e"];
    for u in users.iter() {
        let p = cast_vote(&mut store, pid, &claims(u), &vote(0, u)).unwrap();
        assert!(sum_holds(&p));
    }
    let p = get_poll(&store, pid).unwrap();
    assert_eq!(counts(&p), vec![5, 0]);
    assert_eq!(p.total_votes, 5);
    for u in users.iter() {
        let s = check_user_vote(&store, pid, &claims(u));
        assert!(s.has_voted);
        assert_eq!(s.option_id, Some(0));
    }
}

#[test]
fn second_vote_of_same_user_conflicts() {
    let (mut store, pid) = store_with_color_poll();
    assert!(cast_vote(&mut store, pid, &claims("u2"), &vote(0, "u2")).is_ok());
    let again = cast_vote(&mut store, pid, &claims("u2"), &vote(1, "u2"));
    let err = again.unwrap_err();
    assert_eq!(err.kind(), ErrorKind::Conflict);
    assert_eq!(err.kind().status_code(), 409);
    let p = get_poll(&store, pid).unwrap();
    assert_eq!(counts(&p), vec![1, 0]);
    assert_eq!(p.total_votes, 1);
}

#[test]
fn change_vote_moves_one_vote() {
    let (mut store, pid) = store_with_color_poll();
    cast_vote(&mut store, pid, &claims("x"), &vote(0, "x")).unwrap();
    cast_vote(&mut store, pid, &claims("y"), &vote(0, "y")).unwrap();
    let p = change_vote(&mut store, pid, &claims("x"), &vote(1, "x")).unwrap();
    assert_eq!(counts(&p), vec![1, 1]);
    assert_eq!(p.total_votes, 2);
    assert_eq!(check_user_vote(&store, pid, &claims("x")).option_id, Some(1));
    assert_eq!(check_user_vote(&store, pid, &claims("y")).option_id, Some(0));
}

#[test]
fn change_vote_to_same_option_conflicts() {
    let (mut store, pid) = store_with_color_poll();
    cast_vote(&mut store, pid, &claims("x"), &vote(1, "x")).unwrap();
    let r = change_vote(&mut store, pid, &claims("x"), &vote(1, "x"));
    assert_eq!(r.unwrap_err().kind(), ErrorKind::Conflict);
    assert_eq!(counts(&get_poll(&store, pid).unwrap()), vec![0, 1]);
}

#[test]
fn change_vote_without_vote_is_bad_request() {
    let (mut store, pid) = store_with_color_poll();
    let r = change_vote(&mut store, pid, &claims("x"), &vote(1, "x"));
    assert_eq!(r.unwrap_err().kind(), ErrorKind::BadRequest);
}

#[test]
fn change_vote_to_unknown_option_is_bad_request() {
    let (mut store, pid) = store_with_color_poll();
    cast_vote(&mut store, pid, &claims("x"), &vote(0, "x")).unwrap();
    let r = change_vote(&mut store, pid, &claims("x"), &vote(7, "x"));
    assert_eq!(r.unwrap_err().kind(), ErrorKind::BadRequest);
    assert_eq!(counts(&get_poll(&store, pid).unwrap()), vec![1, 0]);
}

#[test]
fn closed_poll_rejects_cast_and_change() {
    let (mut store, pid) = store_with_color_poll();
    cast_vote(&mut store, pid, &claims("x"), &vote(0, "x")).unwrap();
    close_poll(&mut store, pid, &claims("u1")).unwrap();
    let c = cast_vote(&mut store, pid, &claims("y"), &vote(0, "y"));
    assert_eq!(c.unwrap_err().kind(), ErrorKind::BadRequest);
    let m = change_vote(&mut store, pid, &claims("x"), &vote(1, "x"));
    assert_eq!(m.unwrap_err().kind(), ErrorKind::BadRequest);
    let p = get_poll(&store, pid).unwrap();
    assert_eq!(counts(&p), vec![1, 0]);
    assert_eq!(p.total_votes, 1);
    assert!(!check_user_vote(&store, pid, &claims("y")).has_voted);
}

#[test]
fn closing_twice_succeeds() {
    let (mut store, pid) = store_with_color_poll();
    assert!(close_poll(&mut store, pid, &claims("u1")).unwrap().is_closed);
    assert!(close_poll(&mut store, pid, &claims("u1")).unwrap().is_closed);
}

#[test]
fn reset_leaves_other_polls_alone() {
    let mut store = VoteStore::new();
    let p = create_poll(&mut store, request("P", &["a", "b", "c"], "alice")).unwrap();
    let q = create_poll(&mut store, request("Q", &["x", "y"], "bob")).unwrap();
    cast_vote(&mut store, p.id, &claims("u"), &vote(2, "u")).unwrap();
    cast_vote(&mut store, p.id, &claims("v"), &vote(0, "v")).unwrap();
    cast_vote(&mut store, q.id, &claims("u"), &vote(1, "u")).unwrap();
    close_poll(&mut store, p.id, &claims("alice")).unwrap();
    let r = reset_poll(&mut store, p.id, &claims("alice")).unwrap();
    assert_eq!(counts(&r), vec![0, 0, 0]);
    assert_eq!(r.total_votes, 0);
    assert!(!r.is_closed);
    assert!(!check_user_vote(&store, p.id, &claims("u")).has_voted);
    assert!(!check_user_vote(&store, p.id, &claims("v")).has_voted);
    let q_now = get_poll(&store, q.id).unwrap();
    assert_eq!(counts(&q_now), vec![0, 1]);
    assert_eq!(q_now.total_votes, 1);
    assert_eq!(check_user_vote(&store, q.id, &claims("u")).option_id, Some(1));
    // after a reset the same user may vote again
    assert!(cast_vote(&mut store, p.id, &claims("u"), &vote(1, "u")).is_ok());
}

#[test]
fn non_creator_cannot_close_or_reset() {
    let (mut store, pid) = store_with_color_poll();
    cast_vote(&mut store, pid, &claims("x"), &vote(0, "x")).unwrap();
    let c = close_poll(&mut store, pid, &claims("intruder")).unwrap_err();
    assert_eq!(c.kind(), ErrorKind::Forbidden);
    assert_eq!(c.kind().status_code(), 403);
    let r = reset_poll(&mut store, pid, &claims("intruder")).unwrap_err();
    assert_eq!(r.kind(), ErrorKind::Forbidden);
    let p = get_poll(&store, pid).unwrap();
    assert!(!p.is_closed);
    assert_eq!(counts(&p), vec![1, 0]);
    assert!(check_user_vote(&store, pid, &claims("x")).has_voted);
}

#[test]
fn unknown_poll_is_not_found() {
    let (mut store, _) = store_with_color_poll();
    assert_eq!(get_poll(&store, 9).unwrap_err().kind(), ErrorKind::NotFound);
    let c = cast_vote(&mut store, 9, &claims("x"), &vote(0, "x"));
    assert_eq!(c.unwrap_err().kind(), ErrorKind::NotFound);
    let m = change_vote(&mut store, 9, &claims("x"), &vote(0, "x"));
    assert_eq!(m.unwrap_err().kind(), ErrorKind::BadRequest);
    assert_eq!(close_poll(&mut store, 9, &claims("u1")).unwrap_err().kind(), ErrorKind::NotFound);
    assert_eq!(reset_poll(&mut store, 9, &claims("u1")).unwrap_err().kind(), ErrorKind::NotFound);
}

#[test]
fn vote_for_unknown_option_is_bad_request() {
    let (mut store, pid) = store_with_color_poll();
    let c = cast_vote(&mut store, pid, &claims("x"), &vote(2, "x"));
    assert_eq!(c.unwrap_err().kind(), ErrorKind::BadRequest);
    assert!(!check_user_vote(&store, pid, &claims("x")).has_voted);
}

#[test]
fn create_poll_trims_options() {
    let mut store = VoteStore::new();
    let p = create_poll(&mut store, request("Q", &["  Red ", "\tBlue\n"], "c")).unwrap();
    assert_eq!(p.options[0].text, "Red");
    assert_eq!(p.options[1].text, "Blue");
    assert_eq!(p.options[0].id, 0);
    assert_eq!(p.options[1].id, 1);
}

#[test]
fn create_poll_rejects_bad_options() {
    let mut store = VoteStore::new();
    let one = create_poll(&mut store, request("Q", &["only"], "c")).unwrap_err();
    assert_eq!(one.kind(), ErrorKind::Validation);
    assert_eq!(one.kind().status_code(), 400);
    let none = create_poll(&mut store, request("Q", &[], "c")).unwrap_err();
    assert_eq!(none.kind(), ErrorKind::Validation);
    let dup = create_poll(&mut store, request("Q", &["Red", " Red "], "c")).unwrap_err();
    assert_eq!(dup.kind(), ErrorKind::Validation);
    let blank = create_poll(&mut store, request("Q", &["Red", "   "], "c")).unwrap_err();
    assert_eq!(blank.kind(), ErrorKind::Validation);
    assert!(get_all_polls(&store).is_empty());
}

#[test]
fn polls_are_listed_in_order_and_by_creator() {
    let mut store = VoteStore::new();
    create_poll(&mut store, request("A", &["1", "2"], "ann")).unwrap();
    create_poll(&mut store, request("B", &["1", "2"], "ben")).unwrap();
    create_poll(&mut store, request("C", &["1", "2"], "ann")).unwrap();
    let all: Vec<String> = get_all_polls(&store).into_iter().map(|p| p.question).collect();
    assert_eq!(all, vec!["A", "B", "C"]);
    let ids: Vec<u64> = get_all_polls(&store).into_iter().map(|p| p.id).collect();
    assert_eq!(ids, vec![0, 1, 2]);
    let anns: Vec<String> =
        get_polls_by_user(&store, &claims("ann")).into_iter().map(|p| p.question).collect();
    assert_eq!(anns, vec!["A", "C"]);
    assert!(get_polls_by_user(&store, &claims("nobody")).is_empty());
}

#[test]
fn change_vote_checks_for_a_vote_first() {
    let (mut store, pid) = store_with_color_poll();
    // no vote held: bad request, whether the option or the poll exists or not
    let unknown_option = change_vote(&mut store, pid, &claims("x"), &vote(9, "x"));
    assert_eq!(unknown_option.unwrap_err().kind(), ErrorKind::BadRequest);
    let unknown_poll = change_vote(&mut store, 42, &claims("x"), &vote(0, "x"));
    assert_eq!(unknown_poll.unwrap_err().kind(), ErrorKind::BadRequest);
    assert_eq!(get_poll(&store, pid).unwrap().total_votes, 0);
}

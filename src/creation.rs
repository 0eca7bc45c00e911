use vstd::prelude::*;
use crate::error::AppError;

verus! {

/// What `str::trim` leaves of a text: it drops leading and trailing white
/// space.
pub uninterp spec fn trim_of(s: Seq<char>) -> Seq<char>;

/// Relies on `str::trim`: the result depends on the text alone.
#[verifier::external_body]
fn trimmed(s: &String) -> (r: String)
    ensures
        r@ == trim_of(s@),
{
    s.trim().to_string()
}

/// The request that creates a poll.
#[derive(Debug)]
pub struct CreatePollRequest {
    pub question: String,
    pub options: Vec<String>,
    pub creator_id: String,
}

/// The texts held by a sequence of strings.
pub open spec fn texts(v: Seq<String>) -> Seq<Seq<char>> {
    v.map_values(|s: String| s@)
}

/// Some text occurs twice.
pub open spec fn has_duplicates(s: Seq<Seq<char>>) -> bool {
    exists|i: int, j: int| 0 <= i < j < s.len() && #[trigger] s[i] == #[trigger] s[j]
}

/// Option texts, already trimmed, that a poll can be made of: at least two,
/// none empty, no two equal.
pub open spec fn options_valid(s: Seq<Seq<char>>) -> bool {
    &&& s.len() >= 2
    &&& forall|i: int| 0 <= i < s.len() ==> #[trigger] s[i].len() > 0
    &&& !has_duplicates(s)
}

/// Each raw option text, trimmed, in the same order.
pub fn trim_options(raw: &Vec<String>) -> (r: Vec<String>)
    ensures
        texts(r@) == raw@.map_values(|s: String| trim_of(s@)),
{
    let mut out: Vec<String> = Vec::new();
    let n = raw.len();
    for i in 0..n
        invariant
            n == raw@.len(),
            out@.len() == i,
            forall|j: int| 0 <= j < i ==> #[trigger] out@[j]@ == trim_of(raw@[j]@),
    {
        out.push(trimmed(&raw[i]));
    }
    assert(texts(out@) =~= raw@.map_values(|s: String| trim_of(s@)));
    out
}

/// Accepts trimmed option texts exactly when a poll can be made of them;
/// otherwise fails with a validation error.
pub fn validate_trimmed_options(opts: &Vec<String>) -> (r: Result<(), AppError>)
    ensures
        r is Ok <==> options_valid(texts(opts@)),
        r matches Err(e) ==> e is ValidationError,
{
    let n = opts.len();
    let ghost t = texts(opts@);
    if n < 2 {
        return Err(
            AppError::ValidationError("Enter at least 2 options for the user to select from".to_string()),
        );
    }
    for i in 0..n
        invariant
            n == opts@.len(),
            t == texts(opts@),
            forall|j: int| 0 <= j < i ==> #[trigger] t[j].len() > 0,
    {
        if opts[i].as_str().is_empty() {
            assert(t[i as int].len() == 0);
            return Err(AppError::ValidationError("Poll options must not be empty".to_string()));
        }
    }
    for i in 0..n
        invariant
            n == opts@.len(),
            t == texts(opts@),
            forall|a: int, b: int| 0 <= a < b < n && a < i ==> t[a] != t[b],
    {
        for j in i + 1..n
            invariant
                n == opts@.len(),
                t == texts(opts@),
                i < n,
                forall|b: int| i < b < j ==> t[i as int] != t[b],
        {
            if opts[i] == opts[j] {
                assert(t[i as int] == t[j as int]);
                return Err(AppError::ValidationError("Poll options must be unique".to_string()));
            }
        }
    }
    Ok(())
}

} // verus!

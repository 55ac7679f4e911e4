//! What the bot decides about its login: the code that a redirect from
//! the login page carries, and the times of a token.

use vstd::prelude::*;

verus! {

/// The parameters of a query as mathematical values: names and values in
/// the order of the query.
pub open spec fn pairs_of(query: Seq<(String, String)>) -> Seq<(Seq<char>, Seq<char>)> {
    query.map_values(|pair: (String, String)| (pair.0@, pair.1@))
}

/// The value of the last parameter with the name `code`, if there is one.
pub open spec fn last_code(query: Seq<(Seq<char>, Seq<char>)>) -> Option<Seq<char>>
    decreases query.len(),
{
    if query.len() == 0 {
        None
    } else if query.last().0 == "code"@ {
        Some(query.last().1)
    } else {
        last_code(query.drop_last())
    }
}

/// The authorization code that a request to the local server carries: the
/// request is for the path `/` and has a parameter `code`. Any other
/// request is to be refused.
pub open spec fn code_of(path: Seq<char>, query: Seq<(Seq<char>, Seq<char>)>) -> Option<
    Seq<char>,
> {
    if path == "/"@ {
        last_code(query)
    } else {
        None
    }
}

/// The authorization code that a request for `path` with the parameters
/// `query` carries, if it carries one.
pub fn redirect_code(path: &str, query: &Vec<(String, String)>) -> (code: Option<String>)
    ensures
        match code {
            Some(code) => code_of(path@, pairs_of(query@)) == Some(code@),
            None => code_of(path@, pairs_of(query@)) is None,
        },
{
    if !(path.to_owned() == "/".to_owned()) {
        return None;
    }
    let wanted = "code".to_owned();
    let mut i: usize = query.len();
    assert(pairs_of(query@).take(i as int) =~= pairs_of(query@));
    while i > 0
        invariant
            i <= query@.len(),
            path@ == "/"@,
            wanted@ == "code"@,
            last_code(pairs_of(query@)) == last_code(pairs_of(query@).take(i as int)),
        decreases i,
    {
        let ghost seen = pairs_of(query@).take(i as int);
        assert(seen.last() == (query@[i - 1].0@, query@[i - 1].1@));
        assert(seen.drop_last() =~= pairs_of(query@).take(i - 1));
        if query[i - 1].0 == wanted {
            return Some(query[i - 1].1.clone());
        }
        i -= 1;
    }
    None
}

/// A point in time: the seconds since the epoch, and the nanoseconds since
/// that second began.
#[derive(Debug, Clone, Copy, PartialEq, Eq, Structural)]
pub struct Timestamp {
    pub seconds: i64,
    pub nanoseconds: u32,
}

impl Timestamp {
    /// Whether this point in time lies before `other`.
    pub open spec fn is_before(self, other: Timestamp) -> bool {
        self.seconds < other.seconds || (self.seconds == other.seconds && self.nanoseconds
            < other.nanoseconds)
    }

    /// Whether this point in time lies before `other`.
    pub fn before(&self, other: &Timestamp) -> (earlier: bool)
        ensures
            earlier == self.is_before(*other),
    {
        self.seconds < other.seconds || (self.seconds == other.seconds && self.nanoseconds
            < other.nanoseconds)
    }
}

/// The time at which a token that is handed on now counts as created: now,
/// or, for a token that has expired already, the time at which it expired,
/// so that no token is created after it expires.
pub open spec fn created_at_of(expires_at: Option<Timestamp>, now: Timestamp) -> Timestamp {
    match expires_at {
        Some(expiry) => if expiry.is_before(now) {
            expiry
        } else {
            now
        },
        None => now,
    }
}

/// The time at which a token that is handed on now counts as created.
pub fn created_at(expires_at: Option<Timestamp>, now: Timestamp) -> (created: Timestamp)
    ensures
        created == created_at_of(expires_at, now),
        !now.is_before(created),
        expires_at matches Some(expiry) ==> !expiry.is_before(created),
{
    match expires_at {
        Some(expiry) => if expiry.before(&now) {
            expiry
        } else {
            now
        },
        None => now,
    }
}

} // verus!

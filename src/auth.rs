//! Who the caller is: the claims carried by an access token, the access
//! token taken out of a `Cookie` header, and the checks on roles.

use vstd::prelude::*;

verus! {

/// Role of an authenticated user.
#[derive(Clone, Copy, Debug, PartialEq, Eq, Hash, Structural)]
pub enum Role {
    Admin,
    RegisteredUser,
}

/// What an access token says of its holder.
#[derive(Clone, Copy, Debug, PartialEq, Eq, Hash, Structural)]
pub struct UserClaims {
    pub id: i64,
    pub role: Role,
}

/// Why no access token could be read from a request.
#[derive(Debug)]
pub struct CookieError {
    message: String,
}

impl View for CookieError {
    type V = Seq<char>;

    closed spec fn view(&self) -> Seq<char> {
        self.message@
    }
}

impl CookieError {
    pub fn new(message: &str) -> (r: CookieError)
        ensures
            r@ == message@,
    {
        CookieError { message: String::from_str(message) }
    }

    /// The text shown to the caller.
    pub fn message(&self) -> (r: &String)
        ensures
            r@ == self@,
    {
        &self.message
    }
}

/// The `Cookie` header of a request, as far as it could be read.
pub enum CookieHeader {
    /// The request has no `Cookie` header.
    Missing,
    /// The header holds bytes that are not visible ASCII.
    Unreadable,
    /// The text of the header.
    Text(String),
}

/// Index of the first `c` in `s` at or after `from`, or `s.len()` when there
/// is none.
pub open spec fn find_from(s: Seq<char>, c: char, from: nat) -> nat
    decreases s.len() - from,
{
    if from >= s.len() {
        s.len()
    } else if s[from as int] == c {
        from
    } else {
        find_from(s, c, from + 1)
    }
}

/// The first `name=value` pair of a cookie header: the text before the first
/// `;`.
pub open spec fn first_cookie(header: Seq<char>) -> Seq<char> {
    header.take(find_from(header, ';', 0) as int)
}

/// The access token of a cookie header: the value of its first pair, that is
/// the text after the first `=` of that pair, up to the next `=` if there is
/// one. None when the first pair has no `=`.
pub open spec fn access_token_of(header: Seq<char>) -> Option<Seq<char>> {
    let pair = first_cookie(header);
    let eq = find_from(pair, '=', 0);
    if eq == pair.len() {
        None
    } else {
        Some(pair.subrange(eq + 1int, find_from(pair, '=', eq + 1) as int))
    }
}

proof fn lemma_find_from_bounds(s: Seq<char>, c: char, from: nat)
    requires
        from <= s.len(),
    ensures
        from <= find_from(s, c, from) <= s.len(),
    decreases s.len() - from,
{
    if from < s.len() && s[from as int] != c {
        lemma_find_from_bounds(s, c, from + 1);
    }
}

fn find_char(s: &str, c: char, from: usize, len: usize) -> (r: usize)
    requires
        len == s@.len(),
        from <= len,
    ensures
        r == find_from(s@, c, from as nat),
{
    let mut i: usize = from;
    while i < len
        invariant
            len == s@.len(),
            from <= i <= len,
            find_from(s@, c, from as nat) == find_from(s@, c, i as nat),
        decreases len - i,
    {
        if s.get_char(i) == c {
            return i;
        }
        i = i + 1;
    }
    i
}

/// Reads the access token out of the `Cookie` header of a request: the value
/// of the header's first cookie.
pub fn extract_access_token(header: &CookieHeader) -> (r: Result<String, CookieError>)
    ensures
        match header {
            CookieHeader::Missing => r is Err && r->Err_0@ == "Cookie header not found!"@,
            CookieHeader::Unreadable => r is Err && r->Err_0@
                == "Cookie header contains invalid characters!"@,
            CookieHeader::Text(text) => match access_token_of(text@) {
                Some(token) => r is Ok && r->Ok_0@ == token,
                None => r is Err && r->Err_0@ == "Access token not found in cookie!"@,
            },
        },
{
    match header {
        CookieHeader::Missing => Err(CookieError::new("Cookie header not found!")),
        CookieHeader::Unreadable => Err(
            CookieError::new("Cookie header contains invalid characters!"),
        ),
        CookieHeader::Text(text) => {
            let text: &str = text.as_str();
            let text_len = text.unicode_len();
            let pair_end = find_char(text, ';', 0, text_len);
            proof {
                lemma_find_from_bounds(text@, ';', 0);
            }
            let pair = text.substring_char(0, pair_end);
            assert(pair@ == first_cookie(text@));
            let eq = find_char(pair, '=', 0, pair_end);
            proof {
                lemma_find_from_bounds(pair@, '=', 0);
            }
            if eq == pair_end {
                return Err(CookieError::new("Access token not found in cookie!"));
            }
            let value_end = find_char(pair, '=', eq + 1, pair_end);
            proof {
                lemma_find_from_bounds(pair@, '=', (eq + 1) as nat);
            }
            Ok(pair.substring_char(eq + 1, value_end).to_owned())
        },
    }
}

/// Why a request was refused for its role.
#[derive(Debug)]
pub struct AccessError {
    message: String,
}

impl View for AccessError {
    type V = Seq<char>;

    closed spec fn view(&self) -> Seq<char> {
        self.message@
    }
}

impl AccessError {
    /// The text shown to the caller.
    pub fn message(&self) -> (r: &String)
        ensures
            r@ == self@,
    {
        &self.message
    }
}

/// Lets administrators through, and refuses everyone else.
pub fn is_admin(user_claims: &UserClaims) -> (r: Result<(), AccessError>)
    ensures
        r is Ok <==> user_claims.role == Role::Admin,
        r is Err ==> r->Err_0@ == "Requires Administrator privileges!"@,
{
    if user_claims.role != Role::Admin {
        return Err(AccessError { message: String::from_str("Requires Administrator privileges!") });
    }
    Ok(())
}

/// Lets registered users through, and refuses everyone else.
pub fn is_registered(user_claims: &UserClaims) -> (r: Result<(), AccessError>)
    ensures
        r is Ok <==> user_claims.role == Role::RegisteredUser,
        r is Err ==> r->Err_0@ == "Requires Registration!"@,
{
    if user_claims.role != Role::RegisteredUser {
        return Err(AccessError { message: String::from_str("Requires Registration!") });
    }
    Ok(())
}

} // verus!

//! The pieces of authenticating at Aurora core that are computed rather than sent:
//! the login URL, the session cookie among those the core sets, the cookie header
//! the Socket.IO connections open with, and the detail shown when login fails.

use vstd::prelude::*;

verus! {

/// `s` with every trailing `/` removed.
pub open spec fn without_trailing_slashes(s: Seq<char>) -> Seq<char>
    decreases s.len(),
{
    if s.len() > 0 && s.last() == '/' {
        without_trailing_slashes(s.drop_last())
    } else {
        s
    }
}

/// Trimming keeps a prefix of the text that does not end in `/`, and removes only
/// slashes after it.
pub proof fn lemma_without_trailing_slashes(s: Seq<char>)
    ensures
        ({
            let t = without_trailing_slashes(s);
            &&& t.len() <= s.len()
            &&& t == s.take(t.len() as int)
            &&& t.len() == 0 || t.last() != '/'
            &&& forall|i: int| t.len() <= i < s.len() ==> #[trigger] s[i] == '/'
        }),
    decreases s.len(),
{
    if s.len() > 0 && s.last() == '/' {
        let r = s.drop_last();
        lemma_without_trailing_slashes(r);
        let t = without_trailing_slashes(r);
        assert(t == s.take(t.len() as int)) by {
            assert(r.take(t.len() as int) =~= s.take(t.len() as int));
        }
        assert forall|i: int| t.len() <= i < s.len() implies #[trigger] s[i] == '/' by {
            if i < r.len() {
                assert(s[i] == r[i]);
            }
        }
    } else {
        assert(s.take(s.len() as int) =~= s);
    }
}

/// Calls std's `str::trim_end_matches` with the pattern `'/'`, documented to remove
/// all suffixes that match the pattern, repeatedly: the result is the text without
/// its trailing slashes.
#[verifier::external_body]
fn trim_trailing_slashes(s: &str) -> (t: &str)
    ensures
        t@ == without_trailing_slashes(s@),
{
    s.trim_end_matches('/')
}

/// The login URL for the core at `base`: `base` without trailing slashes, then
/// `/api/auth/key`.
pub fn auth_url(base: &str) -> (url: String)
    ensures
        url@ == without_trailing_slashes(base@) + "/api/auth/key"@,
{
    let mut url = String::from_str(trim_trailing_slashes(base));
    url.append("/api/auth/key");
    url
}

/// The value of the first cookie named `connect.sid`, given the cookies as
/// name and value pairs.
pub open spec fn session_cookie_value(cookies: Seq<(Seq<char>, Seq<char>)>) -> Option<Seq<char>>
    decreases cookies.len(),
{
    if cookies.len() == 0 {
        None
    } else if cookies[0].0 == "connect.sid"@ {
        Some(cookies[0].1)
    } else {
        session_cookie_value(cookies.drop_first())
    }
}

/// The session cookie is the value of the first cookie named `connect.sid`; there is none
/// when no cookie has that name.
pub proof fn lemma_session_cookie_value(cookies: Seq<(Seq<char>, Seq<char>)>)
    ensures
        session_cookie_value(cookies) matches Some(v) ==> exists|i: int|
            0 <= i < cookies.len() && cookies[i].0 == "connect.sid"@ && cookies[i].1 == v
                && forall|j: int| 0 <= j < i ==> (#[trigger] cookies[j]).0 != "connect.sid"@,
        session_cookie_value(cookies) is None ==> forall|i: int|
            0 <= i < cookies.len() ==> (#[trigger] cookies[i]).0 != "connect.sid"@,
    decreases cookies.len(),
{
    if cookies.len() > 0 {
        let rest = cookies.drop_first();
        lemma_session_cookie_value(rest);
        if cookies[0].0 != "connect.sid"@ {
            if session_cookie_value(rest) is Some {
                let v = session_cookie_value(rest)->0;
                let k = choose|k: int|
                    0 <= k < rest.len() && rest[k].0 == "connect.sid"@ && rest[k].1 == v
                        && forall|j: int| 0 <= j < k ==> (#[trigger] rest[j]).0 != "connect.sid"@;
                assert(cookies[k + 1] == rest[k]);
                assert forall|j: int| 0 <= j < k + 1 implies (#[trigger] cookies[j]).0
                    != "connect.sid"@ by {
                    if j > 0 {
                        assert(cookies[j] == rest[j - 1]);
                    }
                }
            } else {
                assert forall|i: int| 0 <= i < cookies.len() implies (#[trigger] cookies[i]).0
                    != "connect.sid"@ by {
                    if i > 0 {
                        assert(cookies[i] == rest[i - 1]);
                    }
                }
            }
        }
    }
}

/// The session cookie among the ones the core set, if there is one.
pub fn session_cookie(cookies: &Vec<(String, String)>) -> (value: Option<String>)
    ensures
        match value {
            Some(v) => session_cookie_value(cookies.deep_view()) == Some(v@),
            None => session_cookie_value(cookies.deep_view()) is None,
        },
{
    let ghost all = cookies.deep_view();
    let name = String::from_str("connect.sid");
    let mut i: usize = 0;
    assert(all.skip(0) =~= all);
    while i < cookies.len()
        invariant
            i <= cookies.len(),
            all == cookies.deep_view(),
            name@ == "connect.sid"@,
            session_cookie_value(all) == session_cookie_value(all.skip(i as int)),
        decreases cookies.len() - i,
    {
        assert(all.skip(i as int)[0] == all[i as int]);
        if cookies[i].0 == name {
            return Some(cookies[i].1.clone());
        }
        assert(all.skip(i as int).drop_first() =~= all.skip(i + 1));
        i = i + 1;
    }
    None
}

/// The header the Socket.IO connections send the session cookie in.
pub fn cookie_header(value: &str) -> (header: String)
    ensures
        header@ == "connect.sid="@ + value@,
{
    let mut header = String::from_str("connect.sid=");
    header.append(value);
    header
}

/// The detail shown when the core refuses the login: the body's `details` text, else
/// its `message` text, else `unknown error`.
pub fn failure_detail(details: Option<String>, message: Option<String>) -> (detail: String)
    ensures
        detail@ == match details {
            Some(d) => d@,
            None => match message {
                Some(m) => m@,
                None => "unknown error"@,
            },
        },
{
    match details {
        Some(d) => d,
        None => match message {
            Some(m) => m,
            None => String::from_str("unknown error"),
        },
    }
}

} // verus!

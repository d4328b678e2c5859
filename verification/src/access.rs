//! Access control: ordered allow/deny rules evaluated first-match-wins
//! against the client IP, then the route's authentication demand. When no
//! rule matches, the filter rejects: absent an explicit pass the policy is
//! closed.
use vstd::prelude::*;
use vstd::string::StringExecFns;
use crate::model::AllowDenyObject;
use crate::model::AllowDenyV;
use crate::model::AllowType;
use crate::model::Authentication;
use crate::model::AuthenticationV;
use crate::strutil::eq_ignore_ascii_case;
use crate::strutil::seq_eq_ci;

verus! {

/// Whether a rule applies to this client IP. `AllowAll` and `DenyAll` apply
/// to every client; `Allow` and `Deny` apply only where their value equals
/// the IP textually, and a rule without a value applies to nobody.
pub open spec fn rule_applies(rule: AllowDenyV, ip: Seq<char>) -> bool {
    match rule.limit_type {
        AllowType::AllowAll => true,
        AllowType::DenyAll => true,
        AllowType::Allow => rule.value == Some(ip),
        AllowType::Deny => rule.value == Some(ip),
    }
}

/// Whether an applying rule lets the request through.
pub open spec fn rule_passes(rule: AllowDenyV) -> bool {
    match rule.limit_type {
        AllowType::AllowAll => true,
        AllowType::Allow => true,
        AllowType::DenyAll => false,
        AllowType::Deny => false,
    }
}

/// First-match-wins evaluation from position `i`; no matching rule rejects.
pub open spec fn filter_from(rules: Seq<AllowDenyV>, ip: Seq<char>, i: int) -> bool
    decreases rules.len() - i,
{
    if i < 0 || i >= rules.len() {
        false
    } else if rule_applies(rules[i], ip) {
        rule_passes(rules[i])
    } else {
        filter_from(rules, ip, i + 1)
    }
}

/// Whether the client IP passes the route's access rules. A route without a
/// rule list accepts everyone.
pub open spec fn ip_allowed(rules: Option<Seq<AllowDenyV>>, ip: Seq<char>) -> bool {
    match rules {
        None => true,
        Some(rs) => filter_from(rs, ip, 0),
    }
}

/// Evaluates the allow/deny rules against the client IP.
pub fn check_ip(list: &Option<Vec<AllowDenyObject>>, ip: &String) -> (r: bool)
    ensures
        r == ip_allowed(
            match list {
                Some(l) => Some(l@.map_values(|x: AllowDenyObject| x@)),
                None => None,
            },
            ip@,
        ),
{
    let rules = match list {
        Some(l) => l,
        None => {
            return true;
        },
    };
    let ghost rv = rules@.map_values(|x: AllowDenyObject| x@);
    let mut i: usize = 0;
    while i < rules.len()
        invariant
            i <= rules.len(),
            match list {
                Some(l) => rules@ == l@,
                None => false,
            },
            rv == rules@.map_values(|x: AllowDenyObject| x@),
            filter_from(rv, ip@, 0) == filter_from(rv, ip@, i as int),
        decreases rules.len() - i,
    {
        let rule = &rules[i];
        let applies = match rule.limit_type {
            AllowType::AllowAll => true,
            AllowType::DenyAll => true,
            AllowType::Allow | AllowType::Deny => match &rule.value {
                Some(v) => *v == *ip,
                None => false,
            },
        };
        if applies {
            assert(rule_applies(rv[i as int], ip@));
            let verdict = match rule.limit_type {
                AllowType::AllowAll | AllowType::Allow => true,
                AllowType::DenyAll | AllowType::Deny => false,
            };
            assert(verdict == rule_passes(rv[i as int]));
            return verdict;
        }
        assert(!rule_applies(rv[i as int], ip@));
        i = i + 1;
    }
    false
}

/// View of a header list: pairs of name and value.
pub open spec fn headers_view(hs: Seq<(String, String)>) -> Seq<(Seq<char>, Seq<char>)> {
    hs.map_values(|p: (String, String)| (p.0@, p.1@))
}

/// Value of the first header whose name equals `name` case-insensitively.
pub open spec fn lookup_from(
    hs: Seq<(Seq<char>, Seq<char>)>,
    name: Seq<char>,
    i: int,
) -> Option<Seq<char>>
    decreases hs.len() - i,
{
    if i < 0 || i >= hs.len() {
        None
    } else if seq_eq_ci(hs[i].0, name) {
        Some(hs[i].1)
    } else {
        lookup_from(hs, name, i + 1)
    }
}

/// Value of the named header, if present.
pub open spec fn header_lookup(
    hs: Seq<(Seq<char>, Seq<char>)>,
    name: Seq<char>,
) -> Option<Seq<char>> {
    lookup_from(hs, name, 0)
}

/// Returns the value of the first header with the given name, compared
/// case-insensitively.
pub fn find_header<'a>(headers: &'a Vec<(String, String)>, name: &str) -> (r: Option<&'a String>)
    ensures
        match r {
            Some(v) => header_lookup(headers_view(headers@), name@) == Some(v@),
            None => header_lookup(headers_view(headers@), name@) is None,
        },
{
    let ghost hv = headers_view(headers@);
    let mut i: usize = 0;
    while i < headers.len()
        invariant
            i <= headers.len(),
            hv == headers_view(headers@),
            lookup_from(hv, name@, 0) == lookup_from(hv, name@, i as int),
        decreases headers.len() - i,
    {
        if eq_ignore_ascii_case(headers[i].0.as_str(), name) {
            assert(seq_eq_ci(hv[i as int].0, name@));
            return Some(&headers[i].1);
        }
        assert(!seq_eq_ci(hv[i as int].0, name@));
        i = i + 1;
    }
    None
}

/// The exact credential the `Basic` mechanism expects in the
/// `authorization` header.
pub open spec fn basic_credential(username: Seq<char>, password: Seq<char>) -> Seq<char> {
    "Basic "@ + username + ":"@ + password
}

/// Whether the request satisfies the route's authentication demand. `Basic`
/// expects the `authorization` header to carry the route's username and
/// password joined by a colon after the scheme tag; `ApiKey` expects the
/// configured header to carry the expected value exactly.
pub open spec fn auth_ok(
    auth: Option<AuthenticationV>,
    hs: Seq<(Seq<char>, Seq<char>)>,
) -> bool {
    match auth {
        None => true,
        Some(AuthenticationV::Basic { username, password }) => header_lookup(
            hs,
            "authorization"@,
        ) == Some(basic_credential(username, password)),
        Some(AuthenticationV::ApiKey { header_name, expected }) => header_lookup(hs, header_name)
            == Some(expected),
    }
}

/// Evaluates the route's authentication demand against the request headers.
pub fn check_auth(auth: &Option<Authentication>, headers: &Vec<(String, String)>) -> (r: bool)
    ensures
        r == auth_ok(
            match auth {
                Some(a) => Some(a@),
                None => None,
            },
            headers_view(headers@),
        ),
{
    match auth {
        None => true,
        Some(Authentication::Basic { username, password }) => {
            let mut expected = String::from_str("Basic ");
            expected.append(username.as_str());
            expected.append(":");
            expected.append(password.as_str());
            assert(expected@ == basic_credential(username@, password@));
            match find_header(headers, "authorization") {
                Some(v) => *v == expected,
                None => false,
            }
        },
        Some(Authentication::ApiKey { header_name, expected }) => {
            match find_header(headers, header_name.as_str()) {
                Some(v) => *v == *expected,
                None => false,
            }
        },
    }
}

} // verus!

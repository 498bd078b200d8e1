//! Caller authentication and authorization: the auth port's in-memory
//! double, the identity read from a token introspection, and the role check
//! that guards every deployment endpoint.

use vstd::prelude::*;
use vstd::string::*;
use crate::errors::AuthError;
use crate::models::{CallerIdentity, CallerIdentityView, copy_strings, holds_role, strings_view};
use crate::text::{decimal, parsed_i32, parse_i32, render_i32, contains_seq, str_contains, strip_prefix_str, starts_with_seq};

verus! {

/// The role that the deployment endpoints require.
pub const ROLE_COOP_DEPLOYER: &'static str = "COOP_DEPLOYER";

/// How `{:?}` renders a list of strings.
pub uninterp spec fn debug_list(items: Seq<Seq<char>>) -> Seq<char>;

/// `items` rendered by `format!("{:?}", items)` (std's `Debug` for a vector
/// of strings). Claimed: the text is `debug_list` of the strings, a function
/// of the strings alone.
#[verifier::external_body]
fn debug_strings(items: &Vec<String>) -> (s: String)
    ensures
        s@ == debug_list(strings_view(items@)),
{
    format!("{:?}", items)
}

/// The message of the error for a caller without `role`.
pub open spec fn missing_role_message(role: Seq<char>, roles: Seq<Seq<char>>) -> Seq<char> {
    "role '"@ + role + "' required, got: "@ + debug_list(roles)
}

/// The message of the error for an empty token.
pub open spec fn empty_token_message() -> Seq<char> {
    "empty token"@
}

/// Accepts any non-empty token and returns a configurable identity.
pub struct FakeAuth {
    pub identity: CallerIdentity,
}

impl Default for FakeAuth {
    /// The identity `TestDeployer`, user 1, holding `COOP_DEPLOYER`.
    fn default() -> (a: Self)
        ensures
            a.identity@.user_id == 1,
            a.identity@.username == "TestDeployer"@,
            a.identity@.roles == seq!["COOP_DEPLOYER"@],
    {
        let mut roles: Vec<String> = Vec::new();
        roles.push(String::from_str("COOP_DEPLOYER"));
        proof {
            assert(strings_view(roles@) =~= seq!["COOP_DEPLOYER"@]);
        }
        FakeAuth {
            identity: CallerIdentity {
                user_id: 1,
                username: String::from_str("TestDeployer"),
                roles,
            },
        }
    }
}

impl FakeAuth {
    /// The configured identity for a non-empty token; an `empty token`
    /// error for the empty one.
    pub fn verify_token(&self, bearer_token: &str) -> (r: Result<CallerIdentity, AuthError>)
        ensures
            match r {
                Ok(id) => bearer_token@.len() > 0 && id@ == self.identity@,
                Err(e) => bearer_token@.len() == 0 && e.0@ == empty_token_message(),
            },
    {
        if bearer_token.unicode_len() == 0 {
            proof { reveal_strlit("empty token"); }
            return Err(AuthError::unauthorized("empty token"));
        }
        Ok(self.identity.duplicate())
    }
}

/// The caller itself when it holds `role`; otherwise a forbidden error that
/// names the role and the roles held.
pub fn authorize(identity: CallerIdentity, role: &str) -> (r: Result<CallerIdentity, AuthError>)
    ensures
        match r {
            Ok(id) => holds_role(identity@.roles, role@) && id@ == identity@,
            Err(e) => !holds_role(identity@.roles, role@) && e.0@ == missing_role_message(
                role@,
                identity@.roles,
            ),
        },
{
    if !identity.has_role(role) {
        let msg = String::from_str("role '");
        let msg = msg.concat(role);
        let msg = msg.concat("' required, got: ");
        let listed = debug_strings(&identity.roles);
        let msg = msg.concat(listed.as_str());
        return Err(AuthError::forbidden(msg.as_str()));
    }
    Ok(identity)
}

/// The authenticated caller behind `token`, provided it holds `role`: the
/// token is verified by the auth port, then the role is checked.
pub fn require_role(ports: &crate::ports::TestPorts, token: &str, role: &str) -> (r: Result<
    CallerIdentity,
    AuthError,
>)
    ensures
        match r {
            Ok(id) => token@.len() > 0 && holds_role(ports.auth.identity@.roles, role@) && id@
                == ports.auth.identity@,
            Err(e) => if token@.len() == 0 {
                e.0@ == empty_token_message()
            } else {
                !holds_role(ports.auth.identity@.roles, role@) && e.0@ == missing_role_message(
                    role@,
                    ports.auth.identity@.roles,
                )
            },
        },
{
    let identity = ports.auth.verify_token(token)?;
    authorize(identity, role)
}

/// The `ext` part of a token introspection: the caller's name and roles.
pub struct IntrospectionExt {
    pub roles: Vec<String>,
    pub username: Option<String>,
}

/// What a token introspection answers: whether the token is active, its
/// subject, and the extra claims.
pub struct Introspection {
    pub active: bool,
    pub sub: Option<String>,
    pub ext: Option<IntrospectionExt>,
}

/// The subject text of an introspection (empty when absent).
pub open spec fn subject_text(sub: Option<String>) -> Seq<char> {
    match sub {
        Some(s) => s@,
        None => Seq::empty(),
    }
}

/// The caller an introspection names: user id parsed from the subject, the
/// name from the extra claims (or the decimal user id), and the roles from
/// the extra claims (or none). Inactive tokens and unparsable subjects are
/// refused, in that order.
pub fn caller_from_introspection(intro: Introspection) -> (r: Result<CallerIdentity, AuthError>)
    ensures
        match r {
            Ok(id) => intro.active && parsed_i32(subject_text(intro.sub)) == Some(id.user_id)
                && id@.username == match intro.ext {
                Some(ext) => match ext.username {
                    Some(u) => u@,
                    None => decimal(id.user_id as int),
                },
                None => decimal(id.user_id as int),
            } && id@.roles == match intro.ext {
                Some(ext) => strings_view(ext.roles@),
                None => Seq::empty(),
            },
            Err(e) => if !intro.active {
                e.0@ == "token is not active"@
            } else {
                parsed_i32(subject_text(intro.sub)) is None && e.0@ == "invalid sub claim"@
            },
        },
{
    if !intro.active {
        return Err(AuthError::unauthorized("token is not active"));
    }
    let parsed = match &intro.sub {
        Some(s) => parse_i32(s.as_str()),
        None => {
            proof { reveal_strlit(""); }
            parse_i32("")
        },
    };
    let user_id = match parsed {
        Some(v) => v,
        None => {
            return Err(AuthError::new("invalid sub claim"));
        },
    };
    match intro.ext {
        Some(ext) => {
            let username = match ext.username {
                Some(u) => u,
                None => render_i32(user_id),
            };
            Ok(CallerIdentity { user_id, username, roles: ext.roles })
        },
        None => {
            let roles: Vec<String> = Vec::new();
            assert(strings_view(roles@) =~= Seq::<Seq<char>>::empty());
            Ok(CallerIdentity { user_id, username: render_i32(user_id), roles })
        },
    }
}

/// The token of an `Authorization` header of the form `Bearer <token>`.
pub fn bearer_token(header: Option<&str>) -> (token: Option<String>)
    ensures
        match header {
            Some(h) => match token {
                Some(t) => starts_with_seq(h@, "Bearer "@) && t@ == h@.subrange(7, h@.len() as int),
                None => !starts_with_seq(h@, "Bearer "@),
            },
            None => token is None,
        },
{
    match header {
        Some(h) => {
            proof { reveal_strlit("Bearer "); }
            strip_prefix_str(h, "Bearer ")
        },
        None => None,
    }
}

/// The HTTP status for the error of a refused request: 403 when the message
/// speaks of a role, else 401.
pub fn auth_failure_status(e: &AuthError) -> (status: u16)
    ensures
        status == if contains_seq(e.0@, "role"@) {
            403u16
        } else {
            401u16
        },
{
    if str_contains(e.0.as_str(), "role") {
        403
    } else {
        401
    }
}

} // verus!

//! Users: signing up, and logging in.

use vstd::prelude::*;
use crate::db::Db;
use crate::error::{AppError, AppResult, STATUS_CONFLICT, STATUS_CREATED};
use crate::model::{LedgerError, LedgerView};
use crate::utils::{
    argon2_accepts, claims_issued, generate_claims, hash_password, validate_password,
    CustomClaims, TOKEN_LIFETIME,
};
use crate::validation::{
    check_password, check_username, password_ok, username_ok, ValidationError,
};

verus! {

/// A user name and a password, as the user gave them.
#[derive(Debug)]
pub struct UserCredentials {
    pub username: String,
    pub password: String,
}

/// A user name and the hash of the password, as the store keeps them.
#[derive(Debug)]
pub struct HashedUserCredentials {
    pub username: String,
    pub hashed_password: String,
}

/// What the rules on credentials say of a name and a password. The first
/// rule that is broken is reported.
pub open spec fn credentials_checked(username: Seq<char>, password: Seq<char>) -> Result<
    (),
    ValidationError,
> {
    if !username_ok(username) {
        Err(ValidationError::Username)
    } else if !password_ok(password) {
        Err(ValidationError::Password)
    } else {
        Ok(())
    }
}

impl UserCredentials {
    /// Whether the credentials meet their rules: the name has 4 to 16
    /// characters, the password 8 to 100.
    pub fn validate(&self) -> (r: Result<(), ValidationError>)
        ensures
            r == credentials_checked(self.username@, self.password@),
    {
        if !check_username(self.username.as_str()) {
            Err(ValidationError::Username)
        } else if !check_password(self.password.as_str()) {
            Err(ValidationError::Password)
        } else {
            Ok(())
        }
    }
}

impl HashedUserCredentials {
    /// The credentials with the password replaced by a hash of it.
    pub fn try_from(value: UserCredentials) -> (r: AppResult<HashedUserCredentials>)
        ensures
            match r {
                Ok(hashed) => hashed.username == value.username && argon2_accepts(
                    value.password@,
                    hashed.hashed_password@,
                ) == Some(true),
                Err(e) => e == AppError::Internal,
            },
    {
        match hash_password(value.password.as_str()) {
            Ok(hashed_password) => Ok(
                HashedUserCredentials { username: value.username, hashed_password },
            ),
            Err(e) => Err(e),
        }
    }
}

/// Whether `r` and `after` are what signing up with `username` and
/// `password` may return and leave behind, on the ledger `before`.
///
/// Credentials that break a rule are refused, and a name that is taken is a
/// conflict; neither changes anything. Otherwise the password is hashed:
/// where that fails, the sign-up fails and nothing is changed; where it
/// succeeds, the account is enrolled under a hash that accepts the password,
/// with a balance of zero, and the status says that it was created.
pub open spec fn signed_up(
    before: LedgerView,
    username: Seq<char>,
    password: Seq<char>,
    r: AppResult<u16>,
    after: LedgerView,
) -> bool {
    match credentials_checked(username, password) {
        Err(e) => r == Err::<u16, AppError>(AppError::Invalid(e)) && after == before,
        Ok(()) => if before.has_account(username) {
            r == Ok::<u16, AppError>(STATUS_CONFLICT) && after == before
        } else {
            ||| r == Err::<u16, AppError>(AppError::Internal) && after == before
            ||| r == Ok::<u16, AppError>(STATUS_CREATED) && exists|hash: Seq<char>|
                argon2_accepts(password, hash) == Some(true) && after == #[trigger] before.enrolled(
                    username,
                    hash,
                )
        },
    }
}

/// Signs a user up, and says under which status the outcome is reported.
pub fn signup(db: &mut Db, user_credentials: UserCredentials) -> (r: AppResult<u16>)
    requires
        old(db).wf(),
    ensures
        final(db).wf(),
        signed_up(old(db)@, user_credentials.username@, user_credentials.password@, r, final(db)@),
{
    match user_credentials.validate() {
        Err(e) => {
            return Err(AppError::Invalid(e));
        },
        Ok(()) => {},
    }
    match db.check_if_username_exists(user_credentials.username.as_str()) {
        Ok(false) => {},
        Ok(true) => {
            return Ok(STATUS_CONFLICT);
        },
        Err(e) => {
            return Err(AppError::Store(e));
        },
    }
    let hashed = match HashedUserCredentials::try_from(user_credentials) {
        Ok(hashed) => hashed,
        Err(e) => {
            return Err(e);
        },
    };
    let ghost hash = hashed.hashed_password@;
    match db.signup_user(hashed) {
        Ok(()) => {
            assert(db@ == old(db)@.enrolled(user_credentials.username@, hash));
            Ok(STATUS_CREATED)
        },
        Err(e) => Err(AppError::Store(e)),
    }
}

/// What a log-in comes to, given what the check of the password said: a
/// password that does not match is unauthorized, and a check that failed
/// stays a failure.
pub fn login_decision(checked: AppResult<bool>) -> (r: AppResult<()>)
    ensures
        r == match checked {
            Ok(true) => Ok::<(), AppError>(()),
            Ok(false) => Err(AppError::Unauthorized),
            Err(e) => Err(e),
        },
{
    match checked {
        Ok(true) => Ok(()),
        Ok(false) => Err(AppError::Unauthorized),
        Err(e) => Err(e),
    }
}

/// Whether `r` is what granting `username` a token at the second `now`
/// gives: the claims of a token that is good for an hour, or a failure inside
/// the service where the hour ends past the last 64-bit second.
pub open spec fn token_granted(r: AppResult<CustomClaims>, now: int, username: String) -> bool {
    match r {
        Ok(claims) => claims_issued(Some(claims), now, TOKEN_LIFETIME as int, username),
        Err(e) => e == AppError::Internal && claims_issued(
            None,
            now,
            TOKEN_LIFETIME as int,
            username,
        ),
    }
}

/// Whether `r` is what logging in with `username` and `password` may
/// return, on the ledger `s`.
///
/// A user that does not exist is not found; a stored hash that cannot be
/// read is a failure inside the service; a password that the stored hash does
/// not accept is unauthorized. Otherwise the claims of a token are issued to
/// the user, good for an hour from the time of the log-in, and the log-in
/// fails inside the service where no such time exists.
pub open spec fn logged_in(
    s: LedgerView,
    username: String,
    password: Seq<char>,
    r: AppResult<CustomClaims>,
) -> bool {
    if !s.has_account(username@) {
        r is Err && r->Err_0 == AppError::Store(LedgerError::NotFound)
    } else {
        match argon2_accepts(password, s.password_of(username@)) {
            None => r is Err && r->Err_0 == AppError::Internal,
            Some(false) => r is Err && r->Err_0 == AppError::Unauthorized,
            Some(true) => exists|now: i64| #[trigger] token_granted(r, now as int, username),
        }
    }
}

/// Logs a user in: checks the password against the stored hash and issues
/// the claims of a token.
pub fn login(db: &Db, user_credentials: &UserCredentials) -> (r: AppResult<CustomClaims>)
    requires
        db.wf(),
    ensures
        logged_in(db@, user_credentials.username, user_credentials.password@, r),
{
    let hashed_password = match db.get_hashed_password_of_user(user_credentials.username.as_str()) {
        Ok(hashed_password) => hashed_password,
        Err(e) => {
            return Err(AppError::Store(e));
        },
    };
    let checked = validate_password(
        user_credentials.password.as_str(),
        hashed_password.as_str(),
    );
    match login_decision(checked) {
        Ok(()) => {},
        Err(e) => {
            return Err(e);
        },
    }
    let issued = generate_claims(TOKEN_LIFETIME, user_credentials.username.clone());
    let r = match issued {
        Some(claims) => Ok(claims),
        None => Err(AppError::Internal),
    };
    proof {
        let now = choose|now: i64| #[trigger]
            claims_issued(issued, now as int, TOKEN_LIFETIME as int, user_credentials.username);
        assert(token_granted(r, now as int, user_credentials.username));
    }
    r
}

} // verus!

//! The login gate's credential check.

use vstd::prelude::*;

verus! {

/// The client version this server speaks.
pub const CLIENT_VERSION: u16 = 956;

/// The answer to a login attempt; the wire value is in the comment.
#[derive(Clone, Copy, Debug, PartialEq, Eq, Structural)]
pub enum AckIDPassResult {
    /// 0
    OK,
    /// -1: wrong id or password.
    IDError,
    /// -2
    PassError,
    /// -3: the account is suspended.
    BanError,
    /// -4: the account is not valid.
    AccountNotError,
    /// -5: the account is already logged in.
    MultiLoginError,
    /// -6: the client is not the expected version.
    VersionError,
}

/// The wire value of a login answer.
pub open spec fn ack_value(a: AckIDPassResult) -> i8 {
    match a {
        AckIDPassResult::OK => 0i8,
        AckIDPassResult::IDError => -1i8,
        AckIDPassResult::PassError => -2i8,
        AckIDPassResult::BanError => -3i8,
        AckIDPassResult::AccountNotError => -4i8,
        AckIDPassResult::MultiLoginError => -5i8,
        AckIDPassResult::VersionError => -6i8,
    }
}

impl AckIDPassResult {
    pub fn to_i8(self) -> (r: i8)
        ensures
            r == ack_value(self),
    {
        match self {
            AckIDPassResult::OK => 0,
            AckIDPassResult::IDError => -1,
            AckIDPassResult::PassError => -2,
            AckIDPassResult::BanError => -3,
            AckIDPassResult::AccountNotError => -4,
            AckIDPassResult::MultiLoginError => -5,
            AckIDPassResult::VersionError => -6,
        }
    }
}

/// What the login gate checks before it asks the store: a login id, a password
/// and the expected version, in that order.
pub open spec fn precheck(username: Seq<u8>, password: Seq<u8>, version: u16) -> Option<AckIDPassResult> {
    if username.len() == 0 {
        Some(AckIDPassResult::IDError)
    } else if password.len() == 0 {
        Some(AckIDPassResult::PassError)
    } else if version != CLIENT_VERSION {
        Some(AckIDPassResult::VersionError)
    } else {
        None
    }
}

/// Checks a login attempt before the store is asked; `None` means the store
/// must now be asked for the account's password.
pub fn check_credentials(username: &Vec<u8>, password: &Vec<u8>, version: u16) -> (r: Option<AckIDPassResult>)
    ensures
        r == precheck(username@, password@, version),
{
    if username.len() == 0 {
        Some(AckIDPassResult::IDError)
    } else if password.len() == 0 {
        Some(AckIDPassResult::PassError)
    } else if version != CLIENT_VERSION {
        Some(AckIDPassResult::VersionError)
    } else {
        None
    }
}

/// The answer once the store has been asked: `stored` is the account's password,
/// or none when there is no such account (or the store failed).
pub fn authenticate_user(username: &Vec<u8>, password: &Vec<u8>, version: u16, stored: Option<Vec<u8>>) -> (r: AckIDPassResult)
    ensures
        precheck(username@, password@, version) matches Some(e) ==> r == e,
        precheck(username@, password@, version) is None ==> r == match stored {
            None => AckIDPassResult::AccountNotError,
            Some(s) => if s@ == password@ { AckIDPassResult::OK } else { AckIDPassResult::PassError },
        },
{
    match check_credentials(username, password, version) {
        Some(e) => e,
        None => match stored {
            None => AckIDPassResult::AccountNotError,
            Some(s) => {
                if bytes_equal(&s, password) {
                    AckIDPassResult::OK
                } else {
                    AckIDPassResult::PassError
                }
            },
        },
    }
}

/// Whether two byte sequences are equal.
pub fn bytes_equal(a: &Vec<u8>, b: &Vec<u8>) -> (r: bool)
    ensures
        r == (a@ == b@),
{
    if a.len() != b.len() {
        return false;
    }
    let mut k: usize = 0;
    while k < a.len()
        invariant
            a@.len() == b@.len(),
            k <= a@.len(),
            forall|m: int| 0 <= m < k ==> a@[m] == b@[m],
        decreases a@.len() - k,
    {
        if a[k] != b[k] {
            return false;
        }
        k += 1;
    }
    assert(a@ =~= b@);
    true
}

} // verus!

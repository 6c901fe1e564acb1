//! A check, without a window, that TDLib starts and asks for a phone number.

use crate::config::{str_view, Credentials, CredentialsView};
use crate::tdlib::auth::{AuthorizationState, AuthorizationStateView};
use crate::text::{numeral_round_trip, parse_i64, parse_int, signed_decimal};
use vstd::prelude::*;

verus! {

/// How long the check waits, in seconds.
pub const DEADLINE_SECS: u64 = 15;

/// What the check does about an authorization state.
#[derive(Clone, Copy, Debug, PartialEq, Eq, Structural)]
pub enum CheckAction {
    /// Send the parameters.
    SendParameters,
    /// The check succeeded.
    Succeed,
    Ignore,
}

/// The progress of the check.
#[derive(Clone, Copy, Debug, PartialEq, Eq, Structural)]
pub struct Check {
    pub params_sent: bool,
}

/// The id to check with: that of the environment, if it is a number, else one
/// that is made up.
pub open spec fn check_id(id: Option<Seq<char>>) -> i32 {
    match id {
        Some(s) => match parse_int(s, i32::MIN as int, i32::MAX as int) {
            Some(n) => n as i32,
            None => 123456,
        },
        None => 123456,
    }
}

/// The credentials to check with: those that there are, else made-up ones.
pub open spec fn credentials_for(id: Option<Seq<char>>, hash: Option<Seq<char>>) -> CredentialsView {
    CredentialsView {
        api_id: check_id(id),
        api_hash: match hash {
            Some(h) => h,
            None => "0123456789abcdef0123456789abcdef"@,
        },
    }
}

/// The credentials to check with. TDLib asks for a phone number before it
/// looks at them, so made-up ones do.
pub fn check_credentials(id: Option<&str>, hash: Option<&str>) -> (r: Credentials)
    ensures
        r@ == credentials_for(str_view(id), str_view(hash)),
{
    let api_id: i32 = match id {
        Some(s) => match parse_i64(s, i32::MIN as i64, i32::MAX as i64) {
            Some(n) => n as i32,
            None => 123456,
        },
        None => 123456,
    };
    let api_hash: String = match hash {
        Some(h) => h.to_owned(),
        None => "0123456789abcdef0123456789abcdef".to_owned(),
    };
    Credentials { api_id, api_hash }
}

impl Check {
    /// Nothing happened yet.
    pub fn new() -> (r: Check)
        ensures
            r == (Check { params_sent: false }),
    {
        Check { params_sent: false }
    }

    /// The progress once the state changed, and what is to be done.
    pub open spec fn stepped(self, state: AuthorizationStateView) -> (Check, CheckAction) {
        (
            Check { params_sent: self.params_sent || state is WaitTdlibParameters },
            if state is WaitTdlibParameters && !self.params_sent {
                CheckAction::SendParameters
            } else if state is WaitPhoneNumber {
                CheckAction::Succeed
            } else {
                CheckAction::Ignore
            },
        )
    }

    /// The authorization state changed. The parameters are sent once.
    pub fn step(&mut self, state: &AuthorizationState) -> (r: CheckAction)
        ensures
            (*final(self), r) == old(self).stepped(state@),
    {
        match state {
            AuthorizationState::WaitTdlibParameters => {
                if self.params_sent {
                    CheckAction::Ignore
                } else {
                    self.params_sent = true;
                    CheckAction::SendParameters
                }
            },
            AuthorizationState::WaitPhoneNumber => CheckAction::Succeed,
            _ => CheckAction::Ignore,
        }
    }
}

// --- Laws --------------------------------------------------------------------

/// An id and a hash that are given are the ones to check with; any made-up ones
/// do where they are not.
pub proof fn given_credentials_are_checked(id: i32, hash: Seq<char>)
    ensures
        credentials_for(Some(signed_decimal(id as int)), Some(hash)) == (CredentialsView {
            api_id: id,
            api_hash: hash,
        }),
        credentials_for(None, Some(hash)).api_hash == hash,
        credentials_for(None, None).api_id != 0,
        credentials_for(None, None).api_hash.len() == 32,
{
    numeral_round_trip(id as int, i32::MIN as int, i32::MAX as int);
    reveal_strlit("0123456789abcdef0123456789abcdef");
}

/// The parameters are sent the first time they are asked for, and never again;
/// the check succeeds exactly when a phone number is asked for.
pub proof fn parameters_are_sent_once(
    check: Check,
    state: AuthorizationStateView,
    later: AuthorizationStateView,
)
    ensures
        check.stepped(state).1 == CheckAction::Succeed <==> state is WaitPhoneNumber,
        check.stepped(state).1 == CheckAction::SendParameters ==> state is WaitTdlibParameters
            && !check.params_sent,
        !check.params_sent && state is WaitTdlibParameters ==> check.stepped(state).1
            == CheckAction::SendParameters,
        state is WaitTdlibParameters ==> check.stepped(state).0.stepped(later).1
            != CheckAction::SendParameters,
        !(state is WaitTdlibParameters) ==> check.stepped(state).0 == check,
        check.params_sent ==> check.stepped(state).0.params_sent,
{
}

} // verus!

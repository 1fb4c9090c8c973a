//! The stored form of a state: its ordinal, as a value of the Soroban host.

use crate::error::Error;
use crate::state::State;
use soroban_sdk::{ConversionError, Env, IntoVal, TryFromVal, Val};
use vstd::prelude::*;

verus! {

/// `soroban_sdk::Env`, the handle to the host. It is handed on to the calls
/// below; nothing is known of what it holds.
#[verifier::external_type_specification]
#[verifier::external_body]
pub struct ExEnv(soroban_sdk::Env);

/// `soroban_sdk::Val`, a value as the host holds it. Of what it holds only
/// [`decoded_u32`] is known.
#[verifier::external_type_specification]
#[verifier::external_body]
pub struct ExVal(soroban_sdk::Val);

/// `soroban_sdk::ConversionError`, the error of a failed conversion. It
/// carries nothing.
#[verifier::external_type_specification]
#[verifier::external_body]
pub struct ExConversionError(soroban_sdk::ConversionError);

/// The `u32` that a host value holds: what `TryFromVal::try_from_val` of
/// `soroban_sdk` reads from a `Val` as a `u32`, and `None` where that fails.
pub uninterp spec fn decoded_u32(val: Val) -> Option<u32>;

/// Calls `IntoVal::into_val` of `soroban_sdk`, from `u32` to `Val`. Trusted
/// of it: it returns for every `u32`, and the host value it gives holds that
/// `u32`, that is, `try_from_val` reads from it the number that went in.
#[verifier::external_body]
fn val_from_u32(env: &Env, n: u32) -> (val: Val)
    ensures
        decoded_u32(val) == Some(n),
{
    n.into_val(env)
}

/// Calls `TryFromVal::try_from_val` of `soroban_sdk`, from `Val` to `u32`.
/// Trusted of it: it returns for every host value, and whether it succeeds,
/// and what it reads, depends on the host value alone.
#[verifier::external_body]
fn u32_from_val(env: &Env, val: &Val) -> (result: Result<u32, ConversionError>)
    ensures
        match result {
            Ok(n) => decoded_u32(*val) == Some(n),
            Err(_) => decoded_u32(*val) is None,
        },
{
    u32::try_from_val(env, val)
}

impl State {
    /// The state that a decoded ordinal names. A value that held no `u32`,
    /// and a number that names no state, are both `Conversion` errors.
    pub open spec fn spec_from_decoded(decoded: Option<u32>) -> Result<State, Error> {
        match decoded {
            Some(n) => match State::spec_from_ordinal(n) {
                Some(state) => Ok(state),
                None => Err(Error::Conversion),
            },
            None => Err(Error::Conversion),
        }
    }

    /// The state named by what was read from a host value: the state of the
    /// ordinal read, and a `Conversion` error where nothing was read or the
    /// number read names no state.
    pub fn from_decoded(decoded: Result<u32, ConversionError>) -> (result: Result<State, Error>)
        ensures
            result == State::spec_from_decoded(
                match decoded {
                    Ok(n) => Some(n),
                    Err(_) => None,
                },
            ),
            result is Ok <==> (decoded matches Ok(n) && n <= 3),
    {
        match decoded {
            Ok(n) => match State::from_ordinal(n) {
                Some(state) => Ok(state),
                None => Err(Error::Conversion),
            },
            Err(_) => Err(Error::Conversion),
        }
    }

    /// The state as a host value: its ordinal.
    pub fn into_val(&self, env: &Env) -> (val: Val)
        ensures
            decoded_u32(val) == Some(self.spec_ordinal()),
            State::spec_from_decoded(decoded_u32(val)) == Ok::<State, Error>(*self),
    {
        val_from_u32(env, self.ordinal())
    }

    /// Reads a state from a host value.
    pub fn try_from_val(env: &Env, val: &Val) -> (result: Result<State, Error>)
        ensures
            result == State::spec_from_decoded(decoded_u32(*val)),
    {
        State::from_decoded(u32_from_val(env, val))
    }
}

} // verus!

use open_annot::{Error, State};
use soroban_sdk::{Env, IntoVal, Val};

#[test]
fn state_survives_the_host_encoding() {
    let env = Env::default();
    for state in [State::Funding, State::Annotating, State::Success, State::Expired] {
        let val = state.into_val(&env);
        assert_eq!(State::try_from_val(&env, &val), Ok(state));
    }
}

#[test]
fn state_is_stored_as_its_ordinal() {
    let env = Env::default();
    let stored: Val = 3u32.into_val(&env);
    assert_eq!(State::try_from_val(&env, &stored), Ok(State::Expired));
    let val = State::Annotating.into_val(&env);
    assert_eq!(u32::try_from(val), Ok(1u32));
}

#[test]
fn host_value_that_names_no_state_is_rejected() {
    let env = Env::default();
    let four: Val = 4u32.into_val(&env);
    assert_eq!(State::try_from_val(&env, &four), Err(Error::Conversion));
    let flag: Val = true.into_val(&env);
    assert_eq!(State::try_from_val(&env, &flag), Err(Error::Conversion));
    let signed: Val = 1i32.into_val(&env);
    assert_eq!(State::try_from_val(&env, &signed), Err(Error::Conversion));
}

#[test]
fn decoded_ordinal_names_a_state() {
    assert_eq!(State::from_decoded(Ok(0)), Ok(State::Funding));
    assert_eq!(State::from_decoded(Ok(1)), Ok(State::Annotating));
    assert_eq!(State::from_decoded(Ok(2)), Ok(State::Success));
    assert_eq!(State::from_decoded(Ok(3)), Ok(State::Expired));
    assert_eq!(State::from_decoded(Ok(4)), Err(Error::Conversion));
    assert_eq!(State::from_decoded(Ok(u32::MAX)), Err(Error::Conversion));
    assert_eq!(State::from_decoded(Err(soroban_sdk::ConversionError)), Err(Error::Conversion));
}

use vstd::prelude::*;

verus! {

#[verifier::external_type_specification]
#[verifier::external_body]
pub struct ExStdError(cosmwasm_std::StdError);

/// The errors of the credential store: the two domain errors, and the
/// host's own errors passed through unchanged.
#[derive(Debug)]
pub enum ContractError {
    Std(cosmwasm_std::StdError),
    KeyAlreadyExists {},
    KeyDoesntExist {},
}

impl From<cosmwasm_std::StdError> for ContractError {
    fn from(e: cosmwasm_std::StdError) -> (r: ContractError) {
        ContractError::Std(e)
    }
}

impl vstd::std_specs::convert::FromSpecImpl<cosmwasm_std::StdError> for ContractError {
    open spec fn obeys_from_spec() -> bool {
        true
    }

    open spec fn from_spec(e: cosmwasm_std::StdError) -> ContractError {
        ContractError::Std(e)
    }
}

} // verus!

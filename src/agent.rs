//! The request a prompt agent forwards to the coordinator: its stored
//! prompt in front of the user's input, and the payment less its own fee.
use crate::error::SolLearnError;
use vstd::prelude::*;

verus! {

/// Builds the forwarded request from a payment of `value`: the prompt
/// followed by the input, and what is left of `value` after the agent's
/// `fee`. The agent's fee goes to its owner; the rest pays the inference.
pub fn infer_request(prompt: &Vec<u8>, fee: u64, input: &Vec<u8>, value: u64) -> (r: Result<
    (Vec<u8>, u64),
    SolLearnError,
>)
    ensures
        fee > value ==> r.is_err() && r == Err::<(Vec<u8>, u64), SolLearnError>(
            SolLearnError::InsufficientFunds,
        ),
        fee <= value ==> r.is_ok() && r.unwrap().0@ == prompt@ + input@ && r.unwrap().1 == value
            - fee,
{
    if fee > value {
        return Err(SolLearnError::InsufficientFunds);
    }
    let mut data: Vec<u8> = Vec::new();
    let mut i: usize = 0;
    while i < prompt.len()
        invariant
            0 <= i <= prompt@.len(),
            data@ == prompt@.subrange(0, i as int),
        decreases prompt@.len() - i,
    {
        data.push(prompt[i]);
        i = i + 1;
        assert(data@ =~= prompt@.subrange(0, i as int));
    }
    assert(prompt@.subrange(0, prompt@.len() as int) =~= prompt@);
    let mut j: usize = 0;
    while j < input.len()
        invariant
            0 <= j <= input@.len(),
            data@ == prompt@ + input@.subrange(0, j as int),
        decreases input@.len() - j,
    {
        data.push(input[j]);
        j = j + 1;
        assert(data@ =~= prompt@ + input@.subrange(0, j as int));
    }
    assert(input@.subrange(0, input@.len() as int) =~= input@);
    Ok((data, value - fee))
}

} // verus!

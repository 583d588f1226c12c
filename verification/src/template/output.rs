//! What a template pays out.

use vstd::prelude::*;
use crate::commitment::Payment;
use crate::contract::Compiled;

verus! {

/// An output of a template: an amount in satoshi, the compiled contract that
/// receives it, and an optional label. The output owns its contract.
#[derive(Debug, PartialEq, Eq)]
pub struct Output {
    pub amount: u64,
    pub contract: Compiled,
    pub label: Option<String>,
}

impl Output {
    /// What the output contributes to a commitment: its amount and the
    /// script of its contract's address.
    pub open spec fn payment(self) -> Payment {
        (self.amount, self.contract.address@)
    }
}

/// What the outputs contribute to a commitment, in order.
pub open spec fn payments_of(outputs: Seq<Output>) -> Seq<Payment> {
    outputs.map_values(|output: Output| output.payment())
}

} // verus!

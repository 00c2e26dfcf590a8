//! Leg-based offer requests.
//!
//! Every request is checked in full; a request that passes is answered with
//! [`WalletErrorCode::NotImplemented`], since the leg-based flow has no wire form for the step
//! after signing.

use vstd::prelude::*;
use vstd::string::*;

use super::builder::{unsigned_view, SdkSpendBuilder, SpendInputs};
use super::offer_driver::{decode_offer, decoded_spends, OfferFault, OfferFaultView};
use super::parse::{hex32_of, parse_hex32, parse_puzzle_hash};
use crate::text::{joined, joined3};
use crate::types::error::{
    invalid, WalletError, WalletErrorCode, WalletErrorView, WalletResult,
};
use crate::types::offers::{CancelOfferRequest, MakeOfferRequest, OfferLeg, TakeOfferRequest};
use crate::types::spend::{UnsignedSpend, UnsignedSpendView};

verus! {

/// The answer to a request that is valid but has no implementation.
pub open spec fn unimplemented(message: Seq<char>) -> WalletErrorView {
    WalletErrorView { code: WalletErrorCode::NotImplemented, message }
}

/// The amount of a leg.
pub open spec fn leg_amount(leg: OfferLeg) -> u64 {
    match leg {
        OfferLeg::Xch { amount } => amount.0,
        OfferLeg::Cat { amount, .. } => amount.0,
    }
}

/// Why a leg is refused, if it is.
pub open spec fn leg_fault(leg: OfferLeg, side: Seq<char>) -> Option<WalletErrorView> {
    if leg_amount(leg) == 0 {
        Some(invalid("an offer's "@ + side + " leg must carry a non-zero amount"@))
    } else {
        match leg {
            OfferLeg::Xch { .. } => None,
            OfferLeg::Cat { asset_id, .. } => match hex32_of(asset_id@, "asset id"@) {
                Ok(_) => None,
                Err(error) => Some(error),
            },
        }
    }
}

/// Why the first refused leg among the first `n` is refused, if one is.
pub open spec fn first_leg_fault(legs: Seq<OfferLeg>, side: Seq<char>, n: nat) -> Option<
    WalletErrorView,
>
    decreases n,
{
    if n == 0 {
        None
    } else {
        match first_leg_fault(legs, side, (n - 1) as nat) {
            Some(error) => Some(error),
            None => leg_fault(legs[n - 1], side),
        }
    }
}

/// Why one side of an offer is refused, if it is.
pub open spec fn side_fault(legs: Seq<OfferLeg>, side: Seq<char>) -> Option<WalletErrorView> {
    if legs.len() == 0 {
        Some(invalid("an offer's "@ + side + " side must carry at least one asset"@))
    } else {
        first_leg_fault(legs, side, legs.len())
    }
}

/// Why an offer text is refused, if it is.
pub open spec fn text_fault(offer: Seq<char>) -> Option<WalletErrorView> {
    match decoded_spends(offer) {
        Ok(_) => None,
        Err(OfferFaultView::Decode(message)) => Some(
            invalid("not a valid offer: decode error: "@ + message),
        ),
        Err(_) => Some(invalid("not a valid offer"@)),
    }
}

/// The answer to a make request.
pub open spec fn make_answer(request: MakeOfferRequest) -> WalletErrorView {
    match side_fault(request.offered@, "offered"@) {
        Some(error) => error,
        None => match side_fault(request.requested@, "requested"@) {
            Some(error) => error,
            None => match hex32_of(request.payee_puzzle_hash@, "puzzle hash"@) {
                Err(error) => error,
                Ok(_) => unimplemented(
                    "make-offer requires the wire-serializable make_assemble seam (release-first, #1122)"@,
                ),
            },
        },
    }
}

/// The answer to a take request.
pub open spec fn take_answer(request: TakeOfferRequest) -> WalletErrorView {
    match text_fault(request.offer@) {
        Some(error) => error,
        None => unimplemented(
            "take-offer requires the wire-serializable take_combine seam (release-first, #1122)"@,
        ),
    }
}

/// The answer to a cancel request.
pub open spec fn cancel_answer(request: CancelOfferRequest) -> WalletErrorView {
    match hex32_of(request.reclaim_puzzle_hash@, "puzzle hash"@) {
        Err(error) => error,
        Ok(_) => match text_fault(request.offer@) {
            Some(error) => error,
            None => unimplemented(
                "cancel-offer requires native-layer reclaim for the offered coins (release-first, #1122)"@,
            ),
        },
    }
}

impl<I: SpendInputs> SdkSpendBuilder<I> {
    /// Checks a make request: both sides carry value and the payee is a puzzle hash.
    pub fn build_make_offer(&self, request: MakeOfferRequest) -> (result: WalletResult<
        UnsignedSpend,
    >)
        ensures
            unsigned_view(result) == Err::<UnsignedSpendView, WalletErrorView>(
                make_answer(request),
            ),
    {
        match validate_side(&request.offered, "offered") {
            Ok(()) => {},
            Err(error) => return Err(error),
        }
        match validate_side(&request.requested, "requested") {
            Ok(()) => {},
            Err(error) => return Err(error),
        }
        match parse_puzzle_hash(&request.payee_puzzle_hash) {
            Ok(_) => {},
            Err(error) => return Err(error),
        }
        Err(
            not_implemented(
                "make-offer requires the wire-serializable make_assemble seam (release-first, #1122)",
            ),
        )
    }

    /// Checks a take request: the text is an offer.
    pub fn build_take_offer(&self, request: TakeOfferRequest) -> (result: WalletResult<
        UnsignedSpend,
    >)
        ensures
            unsigned_view(result) == Err::<UnsignedSpendView, WalletErrorView>(
                take_answer(request),
            ),
    {
        match decode_offer(request.offer.as_str()) {
            Ok(_) => {},
            Err(fault) => return Err(map_decode_error(fault)),
        }
        Err(
            not_implemented(
                "take-offer requires the wire-serializable take_combine seam (release-first, #1122)",
            ),
        )
    }

    /// Checks a cancel request: the reclaim address is a puzzle hash and the text is an offer.
    pub fn build_cancel_offer(&self, request: CancelOfferRequest) -> (result: WalletResult<
        UnsignedSpend,
    >)
        ensures
            unsigned_view(result) == Err::<UnsignedSpendView, WalletErrorView>(
                cancel_answer(request),
            ),
    {
        match parse_puzzle_hash(&request.reclaim_puzzle_hash) {
            Ok(_) => {},
            Err(error) => return Err(error),
        }
        match decode_offer(request.offer.as_str()) {
            Ok(_) => {},
            Err(fault) => return Err(map_decode_error(fault)),
        }
        Err(
            not_implemented(
                "cancel-offer requires native-layer reclaim for the offered coins (release-first, #1122)",
            ),
        )
    }
}

/// Refuses a side that is empty, or that has a leg of zero or with a bad asset id.
pub fn validate_side(legs: &Vec<OfferLeg>, side: &str) -> (result: WalletResult<()>)
    ensures
        match result {
            Ok(()) => side_fault(legs@, side@) is None,
            Err(error) => side_fault(legs@, side@) == Some(error@),
        },
{
    if legs.len() == 0 {
        return Err(
            WalletError::invalid_input(
                joined3("an offer's ", side, " side must carry at least one asset"),
            ),
        );
    }
    let mut i: usize = 0;
    while i < legs.len()
        invariant
            i <= legs@.len(),
            legs@.len() > 0,
            first_leg_fault(legs@, side@, i as nat) is None,
        decreases legs@.len() - i,
    {
        proof {
            if leg_fault(legs@[i as int], side@) is Some {
                lemma_first_fault(legs@, side@, i as nat + 1, legs@.len());
            }
        }
        let amount: u64 = match &legs[i] {
            OfferLeg::Xch { amount } => amount.mojos(),
            OfferLeg::Cat { amount, .. } => amount.mojos(),
        };
        if amount == 0 {
            return Err(
                WalletError::invalid_input(
                    joined3("an offer's ", side, " leg must carry a non-zero amount"),
                ),
            );
        }
        match &legs[i] {
            OfferLeg::Xch { .. } => {},
            OfferLeg::Cat { asset_id, .. } => match parse_hex32(asset_id.0.as_str(), "asset id") {
                Ok(_) => {},
                Err(error) => return Err(error),
            },
        }
        i = i + 1;
    }
    Ok(())
}

proof fn lemma_first_fault(legs: Seq<OfferLeg>, side: Seq<char>, i: nat, n: nat)
    requires
        i <= n,
        first_leg_fault(legs, side, i) is Some,
    ensures
        first_leg_fault(legs, side, n) == first_leg_fault(legs, side, i),
    decreases n - i,
{
    if i < n {
        lemma_first_fault(legs, side, i, (n - 1) as nat);
    }
}

/// A text that does not decode is the caller's mistake.
fn map_decode_error(fault: OfferFault) -> (error: WalletError)
    ensures
        error@ == invalid(
            match fault@ {
                OfferFaultView::Decode(message) => "not a valid offer: decode error: "@ + message,
                _ => "not a valid offer"@,
            },
        ),
{
    match fault {
        OfferFault::Decode(message) => WalletError::invalid_input(
            joined("not a valid offer: decode error: ", message.as_str()),
        ),
        _ => WalletError::invalid_input("not a valid offer".to_owned()),
    }
}

/// The answer to a request that is valid but has no implementation.
fn not_implemented(message: &str) -> (error: WalletError)
    ensures
        error@ == unimplemented(message@),
{
    WalletError::new(WalletErrorCode::NotImplemented, message.to_owned())
}

/// A make request is found valid exactly when both sides carry value and the payee is 32 bytes:
/// nothing else is answered with [`WalletErrorCode::NotImplemented`].
pub proof fn only_a_valid_make_is_unimplemented(request: MakeOfferRequest)
    ensures
        (make_answer(request).code == WalletErrorCode::NotImplemented) == (side_fault(
            request.offered@,
            "offered"@,
        ) is None && side_fault(request.requested@, "requested"@) is None && hex32_of(
            request.payee_puzzle_hash@,
            "puzzle hash"@,
        ) is Ok),
        make_answer(request).code == WalletErrorCode::NotImplemented || make_answer(request).code
            == WalletErrorCode::InvalidInput,
{
    lemma_fault_code(request.offered@, "offered"@, request.offered@.len());
    lemma_fault_code(request.requested@, "requested"@, request.requested@.len());
}

proof fn lemma_fault_code(legs: Seq<OfferLeg>, side: Seq<char>, n: nat)
    ensures
        first_leg_fault(legs, side, n) matches Some(error) ==> error.code
            == WalletErrorCode::InvalidInput,
    decreases n,
{
    if n > 0 {
        lemma_fault_code(legs, side, (n - 1) as nat);
    }
}

} // verus!

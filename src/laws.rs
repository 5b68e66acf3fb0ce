//! Properties that relate the swap operations to each other, proved over the
//! spec functions that their contracts use.
use vstd::prelude::*;
use crate::address::offer_address_of;
use crate::ledger::{Ledger, SwapError};
use crate::swap::{
    accounts_after_take, balance_or_zero, made_offer, make_offer_outcome, take_offer_outcome,
    MakeOffer, TakeOffer,
};

verus! {

/// Fulfillment conserves both assets: the vault's whole balance moves to the taker's
/// account of asset A and the vault closes, the wanted amount of asset B moves from
/// the taker to the maker, and every other account is left as it was.
pub proof fn lemma_fulfill_conserves(l: Ledger, ctx: TakeOffer, signer: Option<Seq<u8>>)
    requires
        l.wf(),
        take_offer_outcome(l, ctx, signer) is Ok,
    ensures
        ({
            let before = l.accounts_map();
            let after = accounts_after_take(l, ctx);
            let (ta, tb, mb, v) = (
                ctx.taker_token_account_a@,
                ctx.taker_token_account_b@,
                ctx.maker_token_account_b@,
                ctx.vault@,
            );
            let w = l.offers_map()[ctx.offer@].token_b_wanted_amount;
            &&& !after.contains_key(v)
            &&& balance_or_zero(after, ta) == balance_or_zero(before, ta) + balance_or_zero(before, v)
            &&& balance_or_zero(after, ta) + balance_or_zero(after, v)
                == balance_or_zero(before, ta) + balance_or_zero(before, v)
            &&& balance_or_zero(after, tb) == balance_or_zero(before, tb) - w
            &&& balance_or_zero(after, mb) == balance_or_zero(before, mb) + w
            &&& balance_or_zero(after, tb) + balance_or_zero(after, mb)
                == balance_or_zero(before, tb) + balance_or_zero(before, mb)
            &&& forall|k: Seq<u8>|
                k != ta && k != tb && k != mb && k != v ==> {
                    &&& #[trigger] after.contains_key(k) == before.contains_key(k)
                    &&& before.contains_key(k) ==> after[k] == before[k]
                }
        }),
{
}

/// An offer is fulfilled at most once: once fulfillment has deleted the offer, a
/// signed request to fulfill the same offer address finds nothing.
pub proof fn lemma_no_double_fulfillment(
    l: Ledger,
    ctx: TakeOffer,
    signer: Option<Seq<u8>>,
    after: Ledger,
    again: TakeOffer,
    signer_again: Option<Seq<u8>>,
)
    requires
        l.wf(),
        take_offer_outcome(l, ctx, signer) is Ok,
        after.offers_map() == l.offers_map().remove(ctx.offer@),
        again.offer@ == ctx.offer@,
        again.taker_is_signer,
    ensures
        take_offer_outcome(after, again, signer_again) == Err::<(), SwapError>(SwapError::NotFound),
{
}

/// An offer id is used at most once per maker: once the offer `id` of a maker exists,
/// a second signed request by that maker for the same `id`, at the derived address,
/// is refused as occupied, whatever its amounts, asset types and accounts.
pub proof fn lemma_no_double_creation(
    l: Ledger,
    first: MakeOffer,
    id: u64,
    offered: u64,
    wanted: u64,
    after: Ledger,
    second: MakeOffer,
    offered_again: u64,
)
    requires
        l.wf(),
        make_offer_outcome(l, first, offered, offer_address_of(first.maker@, id, l.program_id@)) is Ok,
        after.program_id == l.program_id,
        after.offers_map() == l.offers_map().insert(
            first.offer@,
            made_offer(first, id, wanted, offer_address_of(first.maker@, id, l.program_id@).unwrap().1),
        ),
        second.maker@ == first.maker@,
        second.maker_is_signer,
        second.offer@ == first.offer@,
    ensures
        make_offer_outcome(
            after,
            second,
            offered_again,
            offer_address_of(second.maker@, id, after.program_id@),
        ) == Err::<(), SwapError>(SwapError::AddressOccupied),
{
    assert(after.offers_map().contains_key(second.offer@));
}

/// A taker who cannot pay the wanted amount of asset B is refused, so nothing
/// leaves the vault and the offer and its vault stay as they were.
pub proof fn lemma_unpaid_fulfillment_refused(l: Ledger, ctx: TakeOffer, signer: Option<Seq<u8>>)
    requires
        l.wf(),
        l.offers_map().contains_key(ctx.offer@),
        balance_or_zero(l.accounts_map(), ctx.taker_token_account_b@)
            < l.offers_map()[ctx.offer@].token_b_wanted_amount,
    ensures
        take_offer_outcome(l, ctx, signer) is Err,
{
}

/// A request to fulfill an offer that names another asset B than the one the offer
/// records is refused as a mismatch.
pub proof fn lemma_mint_b_mismatch_rejected(l: Ledger, ctx: TakeOffer, signer: Option<Seq<u8>>)
    requires
        l.wf(),
        ctx.taker_is_signer,
        l.offers_map().contains_key(ctx.offer@),
        l.offers_map()[ctx.offer@].token_mint_b@ != ctx.token_mint_b@,
    ensures
        take_offer_outcome(l, ctx, signer) == Err::<(), SwapError>(SwapError::Mismatch),
{
}

} // verus!

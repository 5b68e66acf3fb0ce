//! The swap engine: creating an offer (escrow of asset A) and fulfilling it
//! (asset B to the maker, the escrow to the taker, offer and vault closed), each
//! all-or-nothing.
use vstd::prelude::*;
use crate::address::{
    created_address_of, derive_offer_address, offer_address_of, offer_signer_address,
    offer_signer_seeds,
};
use crate::ledger::{Ledger, Offer, SwapError, TokenAccount};
use crate::table::{keys_equal, Key};

verus! {

/// The accounts that a maker supplies to create an offer.
#[derive(Clone, Copy, Debug)]
pub struct MakeOffer {
    pub maker: Key,
    /// Whether the maker signed the request.
    pub maker_is_signer: bool,
    pub token_mint_a: Key,
    pub token_mint_b: Key,
    /// The maker's account of asset A, debited by the escrowed amount.
    pub maker_token_account_a: Key,
    /// The address of the vault to create.
    pub vault: Key,
    /// The address of the offer record to create.
    pub offer: Key,
}

/// The bytes of a derived address, with its bump seed.
pub open spec fn derived_view(d: Option<(Key, u8)>) -> Option<(Seq<u8>, u8)> {
    match d {
        Some((a, b)) => Some((a@, b)),
        None => None,
    }
}

/// Account `a` holds asset `mint` under authority `owner`.
pub open spec fn holds(a: TokenAccount, mint: Key, owner: Key) -> bool {
    a.mint@ == mint@ && a.authority@ == owner@
}

/// What creating an offer returns, given the address derived for the maker and id.
pub open spec fn make_offer_outcome(
    l: Ledger,
    ctx: MakeOffer,
    offered: u64,
    derived: Option<(Seq<u8>, u8)>,
) -> Result<(), SwapError> {
    let accts = l.accounts_map();
    if !ctx.maker_is_signer {
        Err(SwapError::Unauthorized)
    } else if derived is None || derived.unwrap().0 != ctx.offer@ {
        Err(SwapError::InvalidAccount)
    } else if l.occupied(ctx.offer@) || l.occupied(ctx.vault@) || ctx.vault@ == ctx.offer@ {
        Err(SwapError::AddressOccupied)
    } else if !accts.contains_key(ctx.maker_token_account_a@) {
        Err(SwapError::NotFound)
    } else if !holds(accts[ctx.maker_token_account_a@], ctx.token_mint_a, ctx.maker) {
        Err(SwapError::InvalidAccount)
    } else if accts[ctx.maker_token_account_a@].amount < offered {
        Err(SwapError::InsufficientFunds)
    } else {
        Ok(())
    }
}

/// The token accounts after an offer of `offered` units of asset A is created.
pub open spec fn accounts_after_make(l: Ledger, ctx: MakeOffer, offered: u64) -> Map<Seq<u8>, TokenAccount> {
    let src = l.accounts_map()[ctx.maker_token_account_a@];
    l.accounts_map().insert(
        ctx.maker_token_account_a@,
        TokenAccount { amount: (src.amount - offered) as u64, ..src },
    ).insert(ctx.vault@, TokenAccount { mint: ctx.token_mint_a, authority: ctx.offer, amount: offered })
}

/// The offer record that creating the offer `id` writes.
pub open spec fn made_offer(ctx: MakeOffer, id: u64, wanted: u64, bump: u8) -> Offer {
    Offer {
        id,
        maker: ctx.maker,
        token_mint_a: ctx.token_mint_a,
        token_mint_b: ctx.token_mint_b,
        token_b_wanted_amount: wanted,
        bump,
    }
}

/// Creates the offer `id`, given the address and bump seed derived for the maker
/// and `id` (none where derivation failed): moves `offered` units of asset A from
/// the maker's account to a new vault under the offer's authority, and records the
/// offer. Nothing changes unless every check passes.
pub fn make_offer_at(
    ledger: &mut Ledger,
    ctx: &MakeOffer,
    id: u64,
    offered: u64,
    wanted: u64,
    derived: Option<(Key, u8)>,
) -> (r: Result<(), SwapError>)
    requires
        old(ledger).wf(),
    ensures
        r == make_offer_outcome(*old(ledger), *ctx, offered, derived_view(derived)),
        r is Err ==> *final(ledger) == *old(ledger),
        r is Ok ==> {
            &&& final(ledger).wf()
            &&& final(ledger).program_id == old(ledger).program_id
            &&& final(ledger).accounts_map() == accounts_after_make(*old(ledger), *ctx, offered)
            &&& final(ledger).offers_map() == old(ledger).offers_map().insert(
                ctx.offer@,
                made_offer(*ctx, id, wanted, derived.unwrap().1),
            )
        },
{
    if !ctx.maker_is_signer {
        return Err(SwapError::Unauthorized);
    }
    let (address, bump) = match derived {
        Some(d) => d,
        None => return Err(SwapError::InvalidAccount),
    };
    if !keys_equal(&address, &ctx.offer) {
        return Err(SwapError::InvalidAccount);
    }
    if ledger.is_occupied(&ctx.offer) || ledger.is_occupied(&ctx.vault) || keys_equal(
        &ctx.vault,
        &ctx.offer,
    ) {
        return Err(SwapError::AddressOccupied);
    }
    let src = match ledger.account(&ctx.maker_token_account_a) {
        Some(a) => a,
        None => return Err(SwapError::NotFound),
    };
    if !keys_equal(&src.mint, &ctx.token_mint_a) || !keys_equal(&src.authority, &ctx.maker) {
        return Err(SwapError::InvalidAccount);
    }
    if src.amount < offered {
        return Err(SwapError::InsufficientFunds);
    }
    ledger.put_account(&ctx.vault, TokenAccount { mint: ctx.token_mint_a, authority: ctx.offer, amount: 0 });
    ledger.transfer_checked(
        &ctx.maker_token_account_a,
        &ctx.vault,
        &ctx.token_mint_a,
        &ctx.maker,
        offered,
    )?;
    assert(ledger.accounts_map() =~= accounts_after_make(*old(ledger), *ctx, offered));
    ledger.put_offer(
        &ctx.offer,
        Offer {
            id,
            maker: ctx.maker,
            token_mint_a: ctx.token_mint_a,
            token_mint_b: ctx.token_mint_b,
            token_b_wanted_amount: wanted,
            bump,
        },
    );
    Ok(())
}

/// Creates the offer `id` of the maker: derives its address from the maker and `id`
/// under the ledger's program, then proceeds as `make_offer_at`.
pub fn make_offer(
    ledger: &mut Ledger,
    ctx: &MakeOffer,
    id: u64,
    token_a_offered_amount: u64,
    token_b_wanted_amount: u64,
) -> (r: Result<(), SwapError>)
    requires
        old(ledger).wf(),
    ensures
        r == make_offer_outcome(
            *old(ledger),
            *ctx,
            token_a_offered_amount,
            offer_address_of(ctx.maker@, id, old(ledger).program_id@),
        ),
        r is Err ==> *final(ledger) == *old(ledger),
        r is Ok ==> {
            &&& final(ledger).wf()
            &&& final(ledger).program_id == old(ledger).program_id
            &&& final(ledger).accounts_map() == accounts_after_make(
                *old(ledger),
                *ctx,
                token_a_offered_amount,
            )
            &&& final(ledger).offers_map() == old(ledger).offers_map().insert(
                ctx.offer@,
                made_offer(
                    *ctx,
                    id,
                    token_b_wanted_amount,
                    offer_address_of(ctx.maker@, id, old(ledger).program_id@).unwrap().1,
                ),
            )
        },
{
    let derived = derive_offer_address(&ctx.maker, id, &ledger.program_id);
    make_offer_at(ledger, ctx, id, token_a_offered_amount, token_b_wanted_amount, derived)
}

/// The accounts that a taker supplies to fulfill an offer.
#[derive(Clone, Copy, Debug)]
pub struct TakeOffer {
    pub taker: Key,
    /// Whether the taker signed the request.
    pub taker_is_signer: bool,
    pub maker: Key,
    pub token_mint_a: Key,
    pub token_mint_b: Key,
    /// The taker's account of asset A, credited with the vault; created if absent.
    pub taker_token_account_a: Key,
    /// The taker's account of asset B, debited by the wanted amount.
    pub taker_token_account_b: Key,
    /// The maker's account of asset B, credited with the wanted amount; created if absent.
    pub maker_token_account_b: Key,
    /// The address of the offer record.
    pub offer: Key,
    /// The vault that holds the escrowed asset A.
    pub vault: Key,
}

/// The offer's recorded maker and asset types are the ones supplied.
pub open spec fn offer_matches(o: Offer, maker: Key, mint_a: Key, mint_b: Key) -> bool {
    o.maker@ == maker@ && o.token_mint_a@ == mint_a@ && o.token_mint_b@ == mint_b@
}

/// Confirms that the offer's recorded maker and asset types are the ones supplied.
pub fn validate(offer: &Offer, maker: &Key, mint_a: &Key, mint_b: &Key) -> (r: Result<(), SwapError>)
    ensures
        r == (if offer_matches(*offer, *maker, *mint_a, *mint_b) {
            Ok::<(), SwapError>(())
        } else {
            Err(SwapError::Mismatch)
        }),
{
    if keys_equal(&offer.maker, maker) && keys_equal(&offer.token_mint_a, mint_a) && keys_equal(
        &offer.token_mint_b,
        mint_b,
    ) {
        Ok(())
    } else {
        Err(SwapError::Mismatch)
    }
}

/// The balance at `k`, zero where no account exists yet.
pub open spec fn balance_or_zero(accts: Map<Seq<u8>, TokenAccount>, k: Seq<u8>) -> int {
    if accts.contains_key(k) {
        accts[k].amount as int
    } else {
        0
    }
}

/// The four token accounts that fulfillment touches are distinct.
pub open spec fn distinct_accounts(ctx: TakeOffer) -> bool {
    let (ta, tb, mb, v) = (
        ctx.taker_token_account_a@,
        ctx.taker_token_account_b@,
        ctx.maker_token_account_b@,
        ctx.vault@,
    );
    ta != tb && ta != mb && ta != v && tb != mb && tb != v && mb != v
}

/// An account to be created on demand is either present with the right asset type
/// and owner, or absent and its address free.
pub open spec fn usable_or_free(l: Ledger, k: Seq<u8>, mint: Key, owner: Key) -> bool {
    if l.accounts_map().contains_key(k) {
        holds(l.accounts_map()[k], mint, owner)
    } else {
        !l.offers_map().contains_key(k)
    }
}

/// What fulfilling an offer returns, given the address recomputed from the
/// recorded offer's seeds and bump seed (none where that failed).
pub open spec fn take_offer_outcome(l: Ledger, ctx: TakeOffer, signer: Option<Seq<u8>>) -> Result<(), SwapError> {
    let accts = l.accounts_map();
    let o = l.offers_map()[ctx.offer@];
    let v = accts[ctx.vault@];
    if !ctx.taker_is_signer {
        Err(SwapError::Unauthorized)
    } else if !l.offers_map().contains_key(ctx.offer@) {
        Err(SwapError::NotFound)
    } else if !offer_matches(o, ctx.maker, ctx.token_mint_a, ctx.token_mint_b) {
        Err(SwapError::Mismatch)
    } else if signer != Some(ctx.offer@) {
        Err(SwapError::Unauthorized)
    } else if !accts.contains_key(ctx.vault@) {
        Err(SwapError::NotFound)
    } else if v.authority@ != ctx.offer@ {
        Err(SwapError::Unauthorized)
    } else if v.mint@ != ctx.token_mint_a@ || !distinct_accounts(ctx) {
        Err(SwapError::InvalidAccount)
    } else if !accts.contains_key(ctx.taker_token_account_b@) {
        Err(SwapError::NotFound)
    } else if !holds(accts[ctx.taker_token_account_b@], ctx.token_mint_b, ctx.taker)
        || !usable_or_free(l, ctx.taker_token_account_a@, ctx.token_mint_a, ctx.taker)
        || !usable_or_free(l, ctx.maker_token_account_b@, ctx.token_mint_b, ctx.maker) {
        Err(SwapError::InvalidAccount)
    } else if accts[ctx.taker_token_account_b@].amount < o.token_b_wanted_amount {
        Err(SwapError::InsufficientFunds)
    } else if balance_or_zero(accts, ctx.maker_token_account_b@) + o.token_b_wanted_amount > u64::MAX
        || balance_or_zero(accts, ctx.taker_token_account_a@) + v.amount > u64::MAX {
        Err(SwapError::Overflow)
    } else {
        Ok(())
    }
}

/// The token accounts after an offer is fulfilled: the wanted amount of asset B
/// moves from the taker to the maker, the whole vault moves to the taker, and the
/// vault is closed.
pub open spec fn accounts_after_take(l: Ledger, ctx: TakeOffer) -> Map<Seq<u8>, TokenAccount> {
    let accts = l.accounts_map();
    let w = l.offers_map()[ctx.offer@].token_b_wanted_amount;
    let tb = accts[ctx.taker_token_account_b@];
    let mb = account_or_new(accts, ctx.maker_token_account_b@, ctx.token_mint_b, ctx.maker);
    let ta = account_or_new(accts, ctx.taker_token_account_a@, ctx.token_mint_a, ctx.taker);
    accts.insert(ctx.taker_token_account_b@, TokenAccount { amount: (tb.amount - w) as u64, ..tb }).insert(
        ctx.maker_token_account_b@,
        TokenAccount { amount: (mb.amount + w) as u64, ..mb },
    ).insert(
        ctx.taker_token_account_a@,
        TokenAccount { amount: (ta.amount + accts[ctx.vault@].amount) as u64, ..ta },
    ).remove(ctx.vault@)
}

/// The account at `k`, or the empty account of `mint` under `owner` that is
/// created there on demand.
pub open spec fn account_or_new(accts: Map<Seq<u8>, TokenAccount>, k: Seq<u8>, mint: Key, owner: Key) -> TokenAccount {
    if accts.contains_key(k) {
        accts[k]
    } else {
        TokenAccount { mint, authority: owner, amount: 0 }
    }
}

/// Fulfills the offer at `ctx.offer`, given the address recomputed from the
/// recorded offer's seeds and bump seed: checks every account, then pays the maker,
/// empties the vault into the taker's account, closes the vault and deletes the
/// offer. Nothing changes unless every check passes.
pub fn settle_offer(ledger: &mut Ledger, ctx: &TakeOffer, signer: Option<Key>) -> (r: Result<(), SwapError>)
    requires
        old(ledger).wf(),
    ensures
        r == take_offer_outcome(
            *old(ledger),
            *ctx,
            match signer {
                Some(a) => Some(a@),
                None => None,
            },
        ),
        r is Err ==> *final(ledger) == *old(ledger),
        r is Ok ==> {
            &&& final(ledger).wf()
            &&& final(ledger).program_id == old(ledger).program_id
            &&& final(ledger).accounts_map() == accounts_after_take(*old(ledger), *ctx)
            &&& final(ledger).offers_map() == old(ledger).offers_map().remove(ctx.offer@)
        },
{
    if !ctx.taker_is_signer {
        return Err(SwapError::Unauthorized);
    }
    let offer = match ledger.offer(&ctx.offer) {
        Some(o) => o,
        None => return Err(SwapError::NotFound),
    };
    validate(&offer, &ctx.maker, &ctx.token_mint_a, &ctx.token_mint_b)?;
    match signer {
        Some(a) => {
            if !keys_equal(&a, &ctx.offer) {
                return Err(SwapError::Unauthorized);
            }
        },
        None => return Err(SwapError::Unauthorized),
    }
    let vault = match ledger.account(&ctx.vault) {
        Some(v) => v,
        None => return Err(SwapError::NotFound),
    };
    if !keys_equal(&vault.authority, &ctx.offer) {
        return Err(SwapError::Unauthorized);
    }
    if !keys_equal(&vault.mint, &ctx.token_mint_a) || keys_equal(
        &ctx.taker_token_account_a,
        &ctx.taker_token_account_b,
    ) || keys_equal(&ctx.taker_token_account_a, &ctx.maker_token_account_b) || keys_equal(
        &ctx.taker_token_account_a,
        &ctx.vault,
    ) || keys_equal(&ctx.taker_token_account_b, &ctx.maker_token_account_b) || keys_equal(
        &ctx.taker_token_account_b,
        &ctx.vault,
    ) || keys_equal(&ctx.maker_token_account_b, &ctx.vault) {
        return Err(SwapError::InvalidAccount);
    }
    let taker_b = match ledger.account(&ctx.taker_token_account_b) {
        Some(a) => a,
        None => return Err(SwapError::NotFound),
    };
    if !keys_equal(&taker_b.mint, &ctx.token_mint_b) || !keys_equal(&taker_b.authority, &ctx.taker) {
        return Err(SwapError::InvalidAccount);
    }
    let taker_a = ledger.account(&ctx.taker_token_account_a);
    let taker_a_amount: u64 = match taker_a {
        Some(a) => {
            if !keys_equal(&a.mint, &ctx.token_mint_a) || !keys_equal(&a.authority, &ctx.taker) {
                return Err(SwapError::InvalidAccount);
            }
            a.amount
        },
        None => {
            if ledger.is_occupied(&ctx.taker_token_account_a) {
                return Err(SwapError::InvalidAccount);
            }
            0
        },
    };
    let maker_b = ledger.account(&ctx.maker_token_account_b);
    let maker_b_amount: u64 = match maker_b {
        Some(a) => {
            if !keys_equal(&a.mint, &ctx.token_mint_b) || !keys_equal(&a.authority, &ctx.maker) {
                return Err(SwapError::InvalidAccount);
            }
            a.amount
        },
        None => {
            if ledger.is_occupied(&ctx.maker_token_account_b) {
                return Err(SwapError::InvalidAccount);
            }
            0
        },
    };
    let wanted: u64 = offer.token_b_wanted_amount;
    if taker_b.amount < wanted {
        return Err(SwapError::InsufficientFunds);
    }
    if maker_b_amount > u64::MAX - wanted || taker_a_amount > u64::MAX - vault.amount {
        return Err(SwapError::Overflow);
    }
    if taker_a.is_none() {
        ledger.put_account(
            &ctx.taker_token_account_a,
            TokenAccount { mint: ctx.token_mint_a, authority: ctx.taker, amount: 0 },
        );
    }
    if maker_b.is_none() {
        ledger.put_account(
            &ctx.maker_token_account_b,
            TokenAccount { mint: ctx.token_mint_b, authority: ctx.maker, amount: 0 },
        );
    }
    ledger.transfer_checked(
        &ctx.taker_token_account_b,
        &ctx.maker_token_account_b,
        &ctx.token_mint_b,
        &ctx.taker,
        wanted,
    )?;
    ledger.transfer_checked(
        &ctx.vault,
        &ctx.taker_token_account_a,
        &ctx.token_mint_a,
        &ctx.offer,
        vault.amount,
    )?;
    ledger.close_account(&ctx.vault, &ctx.offer)?;
    ledger.delete_offer(&ctx.offer);
    assert(ledger.accounts_map() =~= accounts_after_take(*old(ledger), *ctx));
    Ok(())
}

/// The address recomputed, for fulfillment, from the seeds of the offer recorded
/// at `ctx.offer` and its bump seed; none where no offer is recorded there.
pub open spec fn offer_signer_for(l: Ledger, ctx: TakeOffer) -> Option<Seq<u8>> {
    if l.offers_map().contains_key(ctx.offer@) {
        let o = l.offers_map()[ctx.offer@];
        created_address_of(offer_signer_seeds(ctx.maker@, o.id, o.bump), l.program_id@)
    } else {
        None
    }
}

/// Fulfills the offer at `ctx.offer`: recomputes the offer's address from the maker,
/// the recorded id and bump seed, then proceeds as `settle_offer`.
pub fn take_offer_latesr(ledger: &mut Ledger, ctx: &TakeOffer) -> (r: Result<(), SwapError>)
    requires
        old(ledger).wf(),
    ensures
        r == take_offer_outcome(*old(ledger), *ctx, offer_signer_for(*old(ledger), *ctx)),
        r is Err ==> *final(ledger) == *old(ledger),
        r is Ok ==> {
            &&& final(ledger).wf()
            &&& final(ledger).program_id == old(ledger).program_id
            &&& final(ledger).accounts_map() == accounts_after_take(*old(ledger), *ctx)
            &&& final(ledger).offers_map() == old(ledger).offers_map().remove(ctx.offer@)
        },
{
    let signer = match ledger.offer(&ctx.offer) {
        Some(o) => offer_signer_address(&ctx.maker, o.id, o.bump, &ledger.program_id),
        None => None,
    };
    settle_offer(ledger, ctx, signer)
}

/// Fulfills the offer at `ctx.offer`; the same operation as `take_offer_latesr`.
pub fn take_offer(ledger: &mut Ledger, ctx: &TakeOffer) -> (r: Result<(), SwapError>)
    requires
        old(ledger).wf(),
    ensures
        r == take_offer_outcome(*old(ledger), *ctx, offer_signer_for(*old(ledger), *ctx)),
        r is Err ==> *final(ledger) == *old(ledger),
        r is Ok ==> {
            &&& final(ledger).wf()
            &&& final(ledger).program_id == old(ledger).program_id
            &&& final(ledger).accounts_map() == accounts_after_take(*old(ledger), *ctx)
            &&& final(ledger).offers_map() == old(ledger).offers_map().remove(ctx.offer@)
        },
{
    take_offer_latesr(ledger, ctx)
}

} // verus!

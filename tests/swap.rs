use token_swapper::address::offer_signer_address;
use token_swapper::swap::{make_offer_at, settle_offer, validate};
use token_swapper::{
    derive_offer_address, make_offer, take_offer, take_offer_latesr, Ledger, MakeOffer, Offer,
    SwapError, TakeOffer, TokenAccount,
};

const PROGRAM: [u8; 32] = [7u8; 32];
const MAKER: [u8; 32] = [1u8; 32];
const TAKER: [u8; 32] = [2u8; 32];
const MINT_A: [u8; 32] = [10u8; 32];
const MINT_B: [u8; 32] = [11u8; 32];
const MAKER_A: [u8; 32] = [20u8; 32];
const MAKER_B: [u8; 32] = [21u8; 32];
const TAKER_A: [u8; 32] = [22u8; 32];
const TAKER_B: [u8; 32] = [23u8; 32];
const VAULT: [u8; 32] = [30u8; 32];

fn offer_address(maker: &[u8; 32], id: u64) -> [u8; 32] {
    derive_offer_address(maker, id, &PROGRAM).expect("an offer address exists").0
}

/// A ledger where the maker holds `maker_a` of asset A and the taker `taker_b` of asset B.
fn funded_ledger(maker_a: u64, taker_b: u64) -> Ledger {
    let mut l = Ledger::new(PROGRAM);
    assert_eq!(l.open_account(MAKER_A, MINT_A, MAKER, maker_a), Ok(()));
    assert_eq!(l.open_account(TAKER_B, MINT_B, TAKER, taker_b), Ok(()));
    l
}

fn make_ctx(id: u64) -> MakeOffer {
    MakeOffer {
        maker: MAKER,
        maker_is_signer: true,
        token_mint_a: MINT_A,
        token_mint_b: MINT_B,
        maker_token_account_a: MAKER_A,
        vault: VAULT,
        offer: offer_address(&MAKER, id),
    }
}

fn take_ctx(id: u64) -> TakeOffer {
    TakeOffer {
        taker: TAKER,
        taker_is_signer: true,
        maker: MAKER,
        token_mint_a: MINT_A,
        token_mint_b: MINT_B,
        taker_token_account_a: TAKER_A,
        taker_token_account_b: TAKER_B,
        maker_token_account_b: MAKER_B,
        offer: offer_address(&MAKER, id),
        vault: VAULT,
    }
}

/// A ledger with the offer `id = 1` of 100 A for 50 B already made.
fn ledger_with_offer(taker_b: u64) -> Ledger {
    let mut l = funded_ledger(500, taker_b);
    assert_eq!(make_offer(&mut l, &make_ctx(1), 1, 100, 50), Ok(()));
    l
}

fn balances(l: &Ledger) -> Vec<Option<u64>> {
    [MAKER_A, MAKER_B, TAKER_A, TAKER_B, VAULT].iter().map(|k| l.balance(k)).collect()
}

#[test]
fn derivation_is_deterministic() {
    let first = derive_offer_address(&MAKER, 1, &PROGRAM);
    let second = derive_offer_address(&MAKER, 1, &PROGRAM);
    assert!(first.is_some());
    assert_eq!(first, second);
}

#[test]
fn derivation_separates_makers_and_ids() {
    let a = offer_address(&MAKER, 1);
    assert_ne!(a, offer_address(&MAKER, 2));
    assert_ne!(a, offer_address(&TAKER, 1));
    assert_ne!(a, MAKER);
    assert_ne!(a, PROGRAM);
}

#[test]
fn derivation_depends_on_program() {
    let here = derive_offer_address(&MAKER, 1, &PROGRAM).unwrap().0;
    let elsewhere = derive_offer_address(&MAKER, 1, &[8u8; 32]).unwrap().0;
    assert_ne!(here, elsewhere);
}

#[test]
fn signer_address_reproduces_derivation() {
    let (address, bump) = derive_offer_address(&MAKER, 1, &PROGRAM).unwrap();
    assert_eq!(offer_signer_address(&MAKER, 1, bump, &PROGRAM), Some(address));
    assert_ne!(offer_signer_address(&MAKER, 2, bump, &PROGRAM), Some(address));
}

#[test]
fn end_to_end_scenario() {
    let mut l = funded_ledger(500, 80);
    assert_eq!(make_offer(&mut l, &make_ctx(1), 1, 100, 50), Ok(()));
    assert_eq!(l.balance(&MAKER_A), Some(400));
    assert_eq!(l.balance(&VAULT), Some(100));
    let vault = l.account(&VAULT).unwrap();
    assert_eq!(vault.authority, offer_address(&MAKER, 1));
    assert_eq!(vault.mint, MINT_A);
    let (_, bump) = derive_offer_address(&MAKER, 1, &PROGRAM).unwrap();
    assert_eq!(
        l.offer(&offer_address(&MAKER, 1)),
        Some(Offer {
            id: 1,
            maker: MAKER,
            token_mint_a: MINT_A,
            token_mint_b: MINT_B,
            token_b_wanted_amount: 50,
            bump,
        })
    );

    assert_eq!(take_offer(&mut l, &take_ctx(1)), Ok(()));
    assert_eq!(l.balance(&TAKER_B), Some(30));
    assert_eq!(l.balance(&MAKER_B), Some(50));
    assert_eq!(l.balance(&TAKER_A), Some(100));
    assert_eq!(l.balance(&MAKER_A), Some(400));
    assert_eq!(l.balance(&VAULT), None);
    assert_eq!(l.offer(&offer_address(&MAKER, 1)), None);
    assert_eq!(
        l.account(&MAKER_B),
        Some(TokenAccount { mint: MINT_B, authority: MAKER, amount: 50 })
    );
}

#[test]
fn fulfillment_conserves_assets() {
    let mut l = ledger_with_offer(80);
    assert_eq!(l.open_account(TAKER_A, MINT_A, TAKER, 7), Ok(()));
    assert_eq!(l.open_account(MAKER_B, MINT_B, MAKER, 3), Ok(()));
    assert_eq!(take_offer_latesr(&mut l, &take_ctx(1)), Ok(()));
    // Asset A: 400 with the maker, 107 with the taker, none in the vault.
    assert_eq!(l.balance(&MAKER_A), Some(400));
    assert_eq!(l.balance(&TAKER_A), Some(107));
    assert_eq!(l.balance(&VAULT), None);
    // Asset B: 30 + 53 == 80 + 3.
    assert_eq!(l.balance(&TAKER_B), Some(30));
    assert_eq!(l.balance(&MAKER_B), Some(53));
}

#[test]
fn fulfillment_takes_the_live_vault_balance() {
    let mut l = ledger_with_offer(80);
    // Funds sent to the vault out of band go to the taker as well.
    assert_eq!(l.open_account([63u8; 32], MINT_A, TAKER, 30), Ok(()));
    assert_eq!(l.transfer_checked(&[63u8; 32], &VAULT, &MINT_A, &TAKER, 30), Ok(()));
    assert_eq!(l.balance(&VAULT), Some(130));
    assert_eq!(take_offer(&mut l, &take_ctx(1)), Ok(()));
    assert_eq!(l.balance(&TAKER_A), Some(130));
}

#[test]
fn second_fulfillment_is_not_found() {
    let mut l = ledger_with_offer(200);
    assert_eq!(take_offer(&mut l, &take_ctx(1)), Ok(()));
    let before = balances(&l);
    assert_eq!(take_offer(&mut l, &take_ctx(1)), Err(SwapError::NotFound));
    assert_eq!(balances(&l), before);
}

#[test]
fn second_creation_is_occupied() {
    let mut l = ledger_with_offer(80);
    assert_eq!(l.open_account([40u8; 32], [12u8; 32], MAKER, 1000), Ok(()));
    let mut other = make_ctx(1);
    other.token_mint_a = [12u8; 32];
    other.token_mint_b = [13u8; 32];
    other.maker_token_account_a = [40u8; 32];
    other.vault = [41u8; 32];
    let before = balances(&l);
    assert_eq!(make_offer(&mut l, &other, 1, 5, 9), Err(SwapError::AddressOccupied));
    assert_eq!(make_offer(&mut l, &make_ctx(1), 1, 100, 50), Err(SwapError::AddressOccupied));
    assert_eq!(balances(&l), before);
    assert_eq!(l.balance(&[41u8; 32]), None);
}

#[test]
fn new_id_makes_a_second_offer() {
    let mut l = ledger_with_offer(80);
    let mut ctx = make_ctx(2);
    ctx.vault = [31u8; 32];
    assert_eq!(make_offer(&mut l, &ctx, 2, 300, 1), Ok(()));
    assert_eq!(l.balance(&MAKER_A), Some(100));
    assert_eq!(l.balance(&[31u8; 32]), Some(300));
}

#[test]
fn unpaid_fulfillment_changes_nothing() {
    let mut l = ledger_with_offer(49);
    let before = balances(&l);
    assert_eq!(take_offer(&mut l, &take_ctx(1)), Err(SwapError::InsufficientFunds));
    assert_eq!(balances(&l), before);
    assert_eq!(l.balance(&VAULT), Some(100));
    assert!(l.offer(&offer_address(&MAKER, 1)).is_some());
    assert_eq!(l.account(&TAKER_A), None);
}

#[test]
fn mint_b_mismatch_is_rejected() {
    let mut l = ledger_with_offer(80);
    let mut ctx = take_ctx(1);
    ctx.token_mint_b = [12u8; 32];
    let before = balances(&l);
    assert_eq!(take_offer(&mut l, &ctx), Err(SwapError::Mismatch));
    assert_eq!(balances(&l), before);
}

#[test]
fn maker_mismatch_is_rejected() {
    let mut l = ledger_with_offer(80);
    let mut ctx = take_ctx(1);
    ctx.maker = TAKER;
    assert_eq!(take_offer(&mut l, &ctx), Err(SwapError::Mismatch));
}

#[test]
fn unsigned_requests_are_unauthorized() {
    let mut l = funded_ledger(500, 80);
    let mut ctx = make_ctx(1);
    ctx.maker_is_signer = false;
    assert_eq!(make_offer(&mut l, &ctx, 1, 100, 50), Err(SwapError::Unauthorized));
    assert_eq!(l.balance(&MAKER_A), Some(500));
    assert_eq!(make_offer(&mut l, &make_ctx(1), 1, 100, 50), Ok(()));
    let mut take = take_ctx(1);
    take.taker_is_signer = false;
    assert_eq!(take_offer(&mut l, &take), Err(SwapError::Unauthorized));
}

#[test]
fn creation_needs_funds() {
    let mut l = funded_ledger(99, 80);
    assert_eq!(make_offer(&mut l, &make_ctx(1), 1, 100, 50), Err(SwapError::InsufficientFunds));
    assert_eq!(l.balance(&MAKER_A), Some(99));
    assert_eq!(l.balance(&VAULT), None);
    assert_eq!(l.offer(&offer_address(&MAKER, 1)), None);
}

#[test]
fn creation_with_whole_balance() {
    let mut l = funded_ledger(100, 80);
    assert_eq!(make_offer(&mut l, &make_ctx(1), 1, 100, 50), Ok(()));
    assert_eq!(l.balance(&MAKER_A), Some(0));
    assert_eq!(l.balance(&VAULT), Some(100));
}

#[test]
fn creation_needs_the_derived_address() {
    let mut l = funded_ledger(500, 80);
    let mut ctx = make_ctx(1);
    ctx.offer = offer_address(&MAKER, 2);
    assert_eq!(make_offer(&mut l, &ctx, 1, 100, 50), Err(SwapError::InvalidAccount));
    assert_eq!(make_offer_at(&mut l, &make_ctx(1), 1, 100, 50, None), Err(SwapError::InvalidAccount));
}

#[test]
fn creation_needs_the_makers_account() {
    let mut l = funded_ledger(500, 80);
    let mut ctx = make_ctx(1);
    ctx.maker_token_account_a = [50u8; 32];
    assert_eq!(make_offer(&mut l, &ctx, 1, 100, 50), Err(SwapError::NotFound));
    ctx.maker_token_account_a = TAKER_B;
    assert_eq!(make_offer(&mut l, &ctx, 1, 10, 50), Err(SwapError::InvalidAccount));
}

#[test]
fn creation_into_an_existing_vault_is_occupied() {
    let mut l = funded_ledger(500, 80);
    let mut ctx = make_ctx(1);
    ctx.vault = TAKER_B;
    assert_eq!(make_offer(&mut l, &ctx, 1, 100, 50), Err(SwapError::AddressOccupied));
}

#[test]
fn creation_at_a_given_address() {
    let mut l = funded_ledger(500, 80);
    let derived = derive_offer_address(&MAKER, 1, &PROGRAM);
    assert_eq!(make_offer_at(&mut l, &make_ctx(1), 1, 100, 50, derived), Ok(()));
    assert_eq!(l.balance(&VAULT), Some(100));
}

#[test]
fn fulfillment_of_a_missing_vault_is_not_found() {
    let mut l = ledger_with_offer(80);
    let mut ctx = take_ctx(1);
    ctx.vault = [60u8; 32];
    assert_eq!(take_offer(&mut l, &ctx), Err(SwapError::NotFound));
}

#[test]
fn fulfillment_from_a_foreign_vault_is_unauthorized() {
    let mut l = ledger_with_offer(80);
    assert_eq!(l.open_account([61u8; 32], MINT_A, TAKER, 1000), Ok(()));
    let mut ctx = take_ctx(1);
    ctx.vault = [61u8; 32];
    assert_eq!(take_offer(&mut l, &ctx), Err(SwapError::Unauthorized));
    assert_eq!(l.balance(&[61u8; 32]), Some(1000));
}

#[test]
fn settlement_needs_the_offer_signer() {
    let mut l = ledger_with_offer(80);
    assert_eq!(settle_offer(&mut l, &take_ctx(1), None), Err(SwapError::Unauthorized));
    assert_eq!(settle_offer(&mut l, &take_ctx(1), Some(VAULT)), Err(SwapError::Unauthorized));
    let signer = Some(offer_address(&MAKER, 1));
    assert_eq!(settle_offer(&mut l, &take_ctx(1), signer), Ok(()));
    assert_eq!(l.balance(&TAKER_A), Some(100));
}

#[test]
fn fulfillment_needs_the_takers_account() {
    let mut l = ledger_with_offer(80);
    let mut ctx = take_ctx(1);
    ctx.taker_token_account_b = [62u8; 32];
    assert_eq!(take_offer(&mut l, &ctx), Err(SwapError::NotFound));
    ctx.taker_token_account_b = MAKER_A;
    assert_eq!(take_offer(&mut l, &ctx), Err(SwapError::InvalidAccount));
}

#[test]
fn fulfillment_rejects_repeated_accounts() {
    let mut l = ledger_with_offer(80);
    let mut ctx = take_ctx(1);
    ctx.maker_token_account_b = TAKER_B;
    assert_eq!(take_offer(&mut l, &ctx), Err(SwapError::InvalidAccount));
}

#[test]
fn fulfillment_rejects_a_wrong_receiving_account() {
    let mut l = ledger_with_offer(80);
    assert_eq!(l.open_account(TAKER_A, MINT_B, TAKER, 0), Ok(()));
    assert_eq!(take_offer(&mut l, &take_ctx(1)), Err(SwapError::InvalidAccount));
}

#[test]
fn fulfillment_that_would_overflow_is_refused() {
    let mut l = ledger_with_offer(80);
    assert_eq!(l.open_account(MAKER_B, MINT_B, MAKER, u64::MAX - 49), Ok(()));
    let before = balances(&l);
    assert_eq!(take_offer(&mut l, &take_ctx(1)), Err(SwapError::Overflow));
    assert_eq!(balances(&l), before);
}

#[test]
fn open_account_refuses_occupied_address() {
    let mut l = ledger_with_offer(80);
    assert_eq!(l.open_account(VAULT, MINT_A, TAKER, 1), Err(SwapError::AddressOccupied));
    let offer = offer_address(&MAKER, 1);
    assert_eq!(l.open_account(offer, MINT_A, TAKER, 1), Err(SwapError::AddressOccupied));
    assert!(l.is_occupied(&offer));
}

#[test]
fn validate_compares_all_three() {
    let o = Offer {
        id: 1,
        maker: MAKER,
        token_mint_a: MINT_A,
        token_mint_b: MINT_B,
        token_b_wanted_amount: 50,
        bump: 255,
    };
    assert_eq!(validate(&o, &MAKER, &MINT_A, &MINT_B), Ok(()));
    assert_eq!(validate(&o, &TAKER, &MINT_A, &MINT_B), Err(SwapError::Mismatch));
    assert_eq!(validate(&o, &MAKER, &MINT_B, &MINT_B), Err(SwapError::Mismatch));
    assert_eq!(validate(&o, &MAKER, &MINT_A, &MINT_A), Err(SwapError::Mismatch));
}

#[test]
fn transfer_moves_between_accounts() {
    let mut l = funded_ledger(500, 80);
    assert_eq!(l.open_account(TAKER_A, MINT_A, TAKER, 5), Ok(()));
    assert_eq!(l.transfer_checked(&MAKER_A, &TAKER_A, &MINT_A, &MAKER, 120), Ok(()));
    assert_eq!(l.balance(&MAKER_A), Some(380));
    assert_eq!(l.balance(&TAKER_A), Some(125));
    assert_eq!(l.account(&TAKER_A).unwrap().authority, TAKER);
}

#[test]
fn transfer_refusals_change_nothing() {
    let mut l = funded_ledger(500, 80);
    assert_eq!(l.open_account(TAKER_A, MINT_A, TAKER, u64::MAX - 10), Ok(()));
    let before = balances(&l);
    let missing = [64u8; 32];
    assert_eq!(l.transfer_checked(&missing, &TAKER_A, &MINT_A, &MAKER, 1), Err(SwapError::NotFound));
    assert_eq!(l.transfer_checked(&MAKER_A, &missing, &MINT_A, &MAKER, 1), Err(SwapError::NotFound));
    assert_eq!(l.transfer_checked(&MAKER_A, &MAKER_A, &MINT_A, &MAKER, 1), Err(SwapError::InvalidAccount));
    assert_eq!(l.transfer_checked(&MAKER_A, &TAKER_B, &MINT_A, &MAKER, 1), Err(SwapError::InvalidAccount));
    assert_eq!(l.transfer_checked(&MAKER_A, &TAKER_A, &MINT_A, &TAKER, 1), Err(SwapError::Unauthorized));
    assert_eq!(l.transfer_checked(&MAKER_A, &TAKER_A, &MINT_A, &MAKER, 501), Err(SwapError::InsufficientFunds));
    assert_eq!(l.transfer_checked(&MAKER_A, &TAKER_A, &MINT_A, &MAKER, 11), Err(SwapError::Overflow));
    assert_eq!(balances(&l), before);
    assert_eq!(l.transfer_checked(&MAKER_A, &TAKER_A, &MINT_A, &MAKER, 10), Ok(()));
    assert_eq!(l.balance(&TAKER_A), Some(u64::MAX));
}

#[test]
fn close_needs_an_empty_account_and_its_authority() {
    let mut l = funded_ledger(500, 80);
    assert_eq!(l.open_account(TAKER_A, MINT_A, TAKER, 0), Ok(()));
    assert_eq!(l.close_account(&[65u8; 32], &TAKER), Err(SwapError::NotFound));
    assert_eq!(l.close_account(&MAKER_A, &MAKER), Err(SwapError::InvalidAccount));
    assert_eq!(l.close_account(&TAKER_A, &MAKER), Err(SwapError::Unauthorized));
    assert_eq!(l.balance(&TAKER_A), Some(0));
    assert_eq!(l.close_account(&TAKER_A, &TAKER), Ok(()));
    assert_eq!(l.account(&TAKER_A), None);
    assert_eq!(l.balance(&MAKER_A), Some(500));
}

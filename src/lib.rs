pub mod address;
pub mod laws;
pub mod ledger;
pub mod swap;
pub mod table;

pub use address::derive_offer_address;
pub use ledger::{Ledger, Offer, SwapError, TokenAccount};
pub use swap::{make_offer, take_offer, take_offer_latesr, MakeOffer, TakeOffer};

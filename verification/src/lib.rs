//! A single-lot auction library.
//!
//! Bidders place incremental bets against a reserve price and a "buy now"
//! redemption price; the lot owner finalizes the auction, which selects the
//! winner, credits the owner's account once, and leaves losing bids ready to
//! be reclaimed. The auction state machine in [`auction`] is the core; the
//! identifier, account and asset-record holders around it are thin.

pub mod auction;
pub mod id;
pub mod nft_lot;
pub mod user;

pub use auction::Auction;
pub use id::Id;
pub use id::T;
pub use nft_lot::NFT;
pub use user::User;

//! Five-card poker hand ranking and best-of-seven showdown evaluation.
//!
//! A hand of five cards is classified into one of nine categories, together
//! with the cards that break ties within the category; classified hands are
//! totally ordered; and of the twenty-one hands that two private cards and
//! five board cards allow, the best is found.

pub mod candidates;
pub mod card;
pub mod classify;
pub mod deck;
pub mod describe;
pub mod hand;
pub mod laws;
pub mod patterns;
pub mod showdown;
pub mod sorting;

pub use candidates::find_best_hand;
pub use candidates::form_all_candidates;
pub use card::Card;
pub use card::CardRank;
pub use card::CardSuite;
pub use card::HandRank;
pub use classify::HandWithData;
pub use deck::Deck;
pub use hand::compare_sorted_hands;
pub use hand::Hand;

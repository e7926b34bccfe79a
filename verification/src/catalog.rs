//! The catalog's data model: owners, content records, ownership keys and
//! their downloadable artifacts, as the remote listing reports them.

use vstd::prelude::*;

verus! {

/// The account that published a piece of content.
#[derive(Debug, Clone)]
pub struct User {
    pub id: u64,
    /// Always present; a filter target.
    pub username: String,
    /// Preferred for presentation when present; also a filter target.
    pub display_name: Option<String>,
    pub url: String,
    pub cover_url: Option<String>,
}

/// One piece of content that can be owned.  Its title is display text, never
/// a filesystem path: before it names an extraction directory it is
/// sanitized.
#[derive(Debug, Clone)]
pub struct Game {
    pub id: u64,
    pub title: String,
    pub short_text: Option<String>,
    pub url: String,
    pub game_type: String,
    pub classification: String,
    pub created_at: String,
    pub published_at: Option<String>,
    pub cover_url: Option<String>,
    pub still_cover_url: Option<String>,
    pub min_price: Option<u64>,
    pub user: User,
}

/// One ownership record: the user owns exactly one game through it.
#[derive(Debug, Clone)]
pub struct OwnedKey {
    pub id: u64,
    pub game_id: u64,
    pub purchase_id: Option<u64>,
    pub downloads: u64,
    pub created_at: String,
    pub updated_at: String,
    pub game: Game,
}

/// One downloadable file offered for a game.
#[derive(Debug, Clone)]
pub struct Upload {
    pub id: u64,
    pub filename: String,
    pub size: u64,
    pub upload_type: String,
    pub game_id: u64,
}

} // verus!

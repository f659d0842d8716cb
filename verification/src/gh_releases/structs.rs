//! The data model of the release host.

use vstd::prelude::*;

verus! {

/// A release of a repository.
#[derive(Debug, Clone)]
pub struct Release {
    pub url: String,
    pub html_url: String,
    pub assets_url: String,
    pub upload_url: String,
    pub tarball_url: Option<String>,
    pub zipball_url: Option<String>,
    pub id: u64,
    pub node_id: String,
    pub tag_name: String,
    pub target_commitish: String,
    pub name: Option<String>,
    pub body: Option<String>,
    pub draft: bool,
    pub prerelease: bool,
    pub created_at: String,
    pub published_at: Option<String>,
    pub author: User,
    pub assets: Vec<ReleaseAsset>,
    pub body_html: Option<String>,
    pub body_text: Option<String>,
    pub mentions_count: Option<i64>,
    pub discussion_url: Option<String>,
    pub reactions: Option<ReactionRollup>,
}

/// A user of the release host.
#[derive(Debug, Clone)]
pub struct User {
    pub name: Option<String>,
    pub email: Option<String>,
    pub login: String,
    pub id: u64,
    pub node_id: String,
    pub avatar_url: String,
    pub gravatar_id: Option<String>,
    pub url: String,
    pub html_url: String,
    pub followers_url: String,
    pub following_url: String,
    pub gists_url: String,
    pub starred_url: Option<String>,
    pub subscriptions_url: String,
    pub organizations_url: String,
    pub repos_url: String,
    pub events_url: String,
    pub received_events_url: String,
    pub user_type: String,
    pub site_admin: bool,
    pub starred_at: Option<String>,
    pub user_view_type: String,
}

/// One file of a release.
#[derive(Debug, Clone)]
pub struct ReleaseAsset {
    pub url: String,
    pub browser_download_url: String,
    pub id: u64,
    pub node_id: String,
    pub name: String,
    pub label: Option<String>,
    pub state: AssetState,
    pub content_type: String,
    pub size: i64,
    pub digest: Option<String>,
    pub download_count: i64,
    pub created_at: String,
    pub updated_at: String,
    pub uploader: Option<User>,
}

/// Whether a file of a release is there.
#[derive(Debug, Clone, Copy, PartialEq, Eq, Structural)]
pub enum AssetState {
    Uploaded,
    Open,
}

/// How a release was received.
#[derive(Debug, Clone)]
pub struct ReactionRollup {
    pub url: String,
    pub total_count: i64,
    pub plus_one: i64,
    pub minus_one: i64,
    pub laugh: i64,
    pub confused: i64,
    pub heart: i64,
    pub hooray: i64,
    pub eyes: i64,
    pub rocket: i64,
}

} // verus!

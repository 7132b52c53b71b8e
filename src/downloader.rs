//! Configuration of a catalog mirror: where items go and which server lists
//! them, and the URLs of that server.

use vstd::prelude::*;
use crate::walk::{start, ActionModel, StateModel, WalkAction, WalkState};

verus! {

/// Base URL of the public catalog server.
pub const DEFAULT_BASE_URL: &'static str = "https://ksm.dev";

/// Destination directory used unless another is given.
pub const DEFAULT_DEST: &'static str = "nautica";

/// Path of the listing, newest upload first, relative to the base URL.
pub const LISTING_PATH: &'static str = "/app/songs?sort=uploaded";

/// A configured catalog mirror.
pub struct Downloader {
    /// Destination directory to save songs.
    pub dest: String,
    /// Base URL of the catalog server.
    pub base_url: String,
}

/// Collects the settings of a [`Downloader`].
pub struct DownloaderBuilder {
    pub dest: String,
    pub base_url: String,
}

impl Default for DownloaderBuilder {
    fn default() -> (r: Self)
        ensures
            r.dest@ == DEFAULT_DEST@,
            r.base_url@ == DEFAULT_BASE_URL@,
    {
        DownloaderBuilder { dest: DEFAULT_DEST.to_owned(), base_url: DEFAULT_BASE_URL.to_owned() }
    }
}

impl DownloaderBuilder {
    /// Sets the destination directory.
    pub fn dest(self, dest: String) -> (r: Self)
        ensures
            r.dest == dest,
            r.base_url == self.base_url,
    {
        DownloaderBuilder { dest, base_url: self.base_url }
    }

    /// Sets the base URL of the catalog server.
    pub fn base_url(self, base_url: String) -> (r: Self)
        ensures
            r.dest == self.dest,
            r.base_url == base_url,
    {
        DownloaderBuilder { dest: self.dest, base_url }
    }

    pub fn build(self) -> (r: Downloader)
        ensures
            r.dest == self.dest,
            r.base_url == self.base_url,
    {
        Downloader { dest: self.dest, base_url: self.base_url }
    }
}

impl Downloader {
    /// A builder with the default destination and server.
    pub fn builder() -> (r: DownloaderBuilder)
        ensures
            r.dest@ == DEFAULT_DEST@,
            r.base_url@ == DEFAULT_BASE_URL@,
    {
        DownloaderBuilder::default()
    }

    /// URL of the first page of the listing, newest upload first.
    pub fn listing_url(&self) -> (r: String)
        ensures
            r@ == self.base_url@ + LISTING_PATH@,
    {
        let mut url = self.base_url.clone();
        url.append(LISTING_PATH);
        url
    }

    /// URL of the archive of one item.
    pub fn download_url(&self, id: &str) -> (r: String)
        ensures
            r@ == self.base_url@ + "/songs/"@ + id@ + "/download"@,
    {
        let mut url = self.base_url.clone();
        url.append("/songs/");
        url.append(id);
        url.append("/download");
        url
    }

    /// Starts a walk of the catalog at the first page of the listing.
    pub fn start_walk(&self) -> (r: (WalkState, WalkAction))
        ensures
            r.0@ == StateModel::Fetching,
            r.1@ == ActionModel::FetchPage(self.base_url@ + LISTING_PATH@),
    {
        start(self.listing_url())
    }
}

} // verus!

//! What the player is asked to play, and where a track is cached.

use vstd::prelude::*;
use crate::model::playlist::PlayerInfo;
use crate::text::push_char;

verus! {

/// A track to play: `key` names its cache file, `url` is where it is fetched
/// from when it is not cached yet.
#[derive(Debug)]
pub struct Task {
    pub key: String,
    pub url: String,
}

/// The directory of the cached tracks.
pub open spec fn cache_dir() -> Seq<char> {
    "cache/"@
}

/// Where a task's audio comes from: its cache file, fetched first from
/// `fetch_from` when that file could not be opened.
pub struct CachePlan {
    pub path: String,
    pub fetch_from: Option<String>,
}

impl Task {
    /// Plans the playback of the task, given whether its cache file could be
    /// opened: a cached file is played as it is, any other is fetched from
    /// the task's URL first.
    pub fn plan(&self, cached: bool) -> (p: CachePlan)
        ensures
            p.path@ == cache_dir() + self.key@,
            cached ==> p.fetch_from is None,
            !cached ==> (p.fetch_from matches Some(u) && u@ == self.url@),
    {
        let path = self.cache_path();
        let fetch_from = if cached {
            None
        } else {
            Some(self.url.clone())
        };
        CachePlan { path, fetch_from }
    }

    /// The task of playing the track that `info` describes: its cache file
    /// is named `<md5>.<type>`.
    pub fn from_player_info(info: &PlayerInfo) -> (t: Task)
        ensures
            t.key@ == info.md5@ + seq!['.'] + info.typ@,
            t.url@ == info.url@,
    {
        let mut key = info.md5.clone();
        push_char(&mut key, '.');
        key.append(info.typ.as_str());
        Task { key, url: info.url.clone() }
    }

    /// The path of the task's cache file.
    pub fn cache_path(&self) -> (p: String)
        ensures
            p@ == cache_dir() + self.key@,
    {
        let mut p = "cache/".to_owned();
        p.append(self.key.as_str());
        p
    }
}

} // verus!

//! Playlists, tracks and playback information.

use vstd::prelude::*;

verus! {

/// A track of a playlist.
#[derive(Clone, Debug)]
pub struct Track {
    pub id: i64,
    pub name: String,
}

/// A playlist; `tracks` is present in the answer of the detail endpoint.
#[derive(Clone, Debug)]
pub struct PlayList {
    pub id: i64,
    pub name: String,
    pub tracks: Option<Vec<Track>>,
}

/// The answer of the endpoint that lists a user's playlists.
#[derive(Clone, Debug)]
pub struct GetPlayListsRes {
    pub code: i64,
    pub playlist: Vec<PlayList>,
}

/// The answer of the playlist detail endpoint.
#[derive(Clone, Debug)]
pub struct GetPlayListDetailRes {
    pub code: i64,
    pub playlist: PlayList,
}

/// The answer of the playback endpoint.
#[derive(Clone, Debug)]
pub struct GetPlayerInfoRes {
    pub code: i64,
    pub data: Vec<PlayerInfo>,
}

/// Where and in which form a track can be fetched; `typ` is the file type
/// that the service calls `type`.
#[derive(Clone, Debug)]
pub struct PlayerInfo {
    pub id: i64,
    pub br: i64,
    pub size: i64,
    pub url: String,
    pub level: String,
    pub encodeType: String,
    pub md5: String,
    pub typ: String,
}

/// The first entry of a playback answer (the service answers with one entry
/// per requested track).
pub fn first_player_info(res: GetPlayerInfoRes) -> (info: PlayerInfo)
    requires
        res.data@.len() > 0,
    ensures
        info == res.data@[0],
{
    let mut data = res.data;
    data.swap_remove(0)
}

} // verus!

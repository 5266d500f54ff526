//! The requests that the client sends to the service's endpoints.

use vstd::prelude::*;
use crate::params::{Params, inserted};
use crate::text::push_char;

verus! {

/// A call of an endpoint: its path below the service's host and its
/// parameters.
pub struct ApiRequest {
    pub path: String,
    pub params: Params,
}

/// Storing under a name that does not occur yet appends the pair.
pub proof fn lemma_inserted_fresh(s: Seq<(Seq<char>, Seq<char>)>, k: Seq<char>, v: Seq<char>)
    requires
        forall|i: int| 0 <= i < s.len() ==> #[trigger] s[i].0 != k,
    ensures
        inserted(s, k, v) == s.push((k, v)),
{
}

fn put(p: &mut Params, k: &str, v: &str)
    requires
        forall|i: int| 0 <= i < old(p)@.len() ==> #[trigger] old(p)@[i].0 != k@,
    ensures
        final(p)@ == old(p)@.push((k@, v@)),
{
    proof {
        lemma_inserted_fresh(old(p)@, k@, v@);
    }
    p.insert(k.to_owned(), v.to_owned());
}

/// Starts a QR-code login: asks for a session key.
pub fn qr_login_unikey_request() -> (r: ApiRequest)
    ensures
        r.path@ == "/weapi/login/qrcode/unikey"@,
        r.params@ == seq![("type"@, "1"@)],
{
    let mut p = Params::new();
    put(&mut p, "type", "1");
    ApiRequest { path: "/weapi/login/qrcode/unikey".to_owned(), params: p }
}

/// Asks for the state of the QR-code login session `unikey`.
pub fn qr_login_check_request(unikey: &str) -> (r: ApiRequest)
    ensures
        r.path@ == "/weapi/login/qrcode/client/login"@,
        r.params@ == seq![("type"@, "1"@), ("key"@, unikey@)],
{
    proof {
        reveal_strlit("type");
        reveal_strlit("key");
    }
    let mut p = Params::new();
    put(&mut p, "type", "1");
    assert(p@[0].0 == "type"@ && "type"@.len() != "key"@.len());
    put(&mut p, "key", unikey);
    ApiRequest { path: "/weapi/login/qrcode/client/login".to_owned(), params: p }
}

/// Asks for the profile of the signed-in user.
pub fn user_profile_request() -> (r: ApiRequest)
    ensures
        r.path@ == "/weapi/nuser/account/get"@,
        r.params@ == seq![("type"@, "1"@)],
{
    let mut p = Params::new();
    put(&mut p, "type", "1");
    ApiRequest { path: "/weapi/nuser/account/get".to_owned(), params: p }
}

/// The parameters that ask for the first 30 playlists of the user `uid`.
pub open spec fn user_playlist_params(uid: Seq<char>) -> Seq<(Seq<char>, Seq<char>)> {
    seq![("uid"@, uid), ("limit"@, "30"@), ("offset"@, "0"@), ("includeVideo"@, "true"@)]
}

/// The parameters that ask for a playlist with up to 100000 of its tracks.
pub open spec fn playlist_detail_params(id: Seq<char>) -> Seq<(Seq<char>, Seq<char>)> {
    seq![("id"@, id), ("n"@, "100000"@), ("s"@, "0"@)]
}

/// Asks for the first 30 playlists of the user `uid`.
pub fn user_playlist_request(uid: &str) -> (r: ApiRequest)
    ensures
        r.path@ == "/weapi/user/playlist"@,
        r.params@ == user_playlist_params(uid@),
{
    proof {
        reveal_strlit("uid");
        reveal_strlit("limit");
        reveal_strlit("offset");
        reveal_strlit("includeVideo");
    }
    let mut p = Params::new();
    put(&mut p, "uid", uid);
    assert(p@[0].0 == "uid"@ && "uid"@.len() != "limit"@.len());
    put(&mut p, "limit", "30");
    assert(p@[0].0 == "uid"@ && p@[1].0 == "limit"@);
    assert("uid"@.len() != "offset"@.len() && "limit"@.len() != "offset"@.len());
    put(&mut p, "offset", "0");
    assert(p@[0].0 == "uid"@ && p@[1].0 == "limit"@ && p@[2].0 == "offset"@);
    assert("uid"@.len() != "includeVideo"@.len() && "limit"@.len() != "includeVideo"@.len());
    assert("offset"@.len() != "includeVideo"@.len());
    put(&mut p, "includeVideo", "true");
    ApiRequest { path: "/weapi/user/playlist".to_owned(), params: p }
}

/// Asks for a playlist with (up to 100000 of) its tracks.
pub fn playlist_detail_request(playlist_id: &str) -> (r: ApiRequest)
    ensures
        r.path@ == "/weapi/v6/playlist/detail"@,
        r.params@ == playlist_detail_params(playlist_id@),
{
    proof {
        reveal_strlit("id");
        reveal_strlit("n");
        reveal_strlit("s");
    }
    let mut p = Params::new();
    put(&mut p, "id", playlist_id);
    assert(p@[0].0 == "id"@ && "id"@.len() != "n"@.len());
    put(&mut p, "n", "100000");
    assert(p@[0].0 == "id"@ && p@[1].0 == "n"@);
    assert("id"@.len() != "s"@.len() && "n"@[0] != "s"@[0]);
    put(&mut p, "s", "0");
    ApiRequest { path: "/weapi/v6/playlist/detail".to_owned(), params: p }
}

/// The value of the `ids` parameter for one track: `[id]`.
pub open spec fn ids_list(track_id: Seq<char>) -> Seq<char> {
    seq!['['] + track_id + seq![']']
}

/// The parameters that ask where one track can be fetched.
pub open spec fn player_info_params(track_id: Seq<char>) -> Seq<(Seq<char>, Seq<char>)> {
    seq![("ids"@, ids_list(track_id)), ("br"@, "999000"@)]
}

/// Asks where the track `track_id` can be fetched, at the highest bit rate.
pub fn player_info_request(track_id: &str) -> (r: ApiRequest)
    ensures
        r.path@ == "/weapi/song/enhance/player/url"@,
        r.params@ == player_info_params(track_id@),
{
    proof {
        reveal_strlit("ids");
        reveal_strlit("br");
    }
    let mut ids = String::new();
    push_char(&mut ids, '[');
    ids.append(track_id);
    push_char(&mut ids, ']');
    assert(ids@ =~= ids_list(track_id@));
    let mut p = Params::new();
    put(&mut p, "ids", ids.as_str());
    assert(p@[0].0 == "ids"@ && "ids"@.len() != "br"@.len());
    put(&mut p, "br", "999000");
    ApiRequest { path: "/weapi/song/enhance/player/url".to_owned(), params: p }
}

} // verus!

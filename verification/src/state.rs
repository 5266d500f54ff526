//! The state of the terminal application: the menu in focus, the loaded
//! playlists and tracks, the selections, and how keys change them.

use vstd::prelude::*;
use crate::api::{
    ApiRequest, playlist_detail_params, playlist_detail_request, player_info_params,
    player_info_request, user_playlist_params, user_playlist_request,
};
use crate::model::playlist::{PlayList, Track};
use crate::model::user::UserProfile;
use crate::text::{decimal, decimal_string};

verus! {

/// The list that has the focus.
#[derive(Clone, Copy, Debug, PartialEq, Eq, Structural)]
pub enum MenuType {
    Playlists,
    Tracks,
}

/// What the application does after a key, besides changing its state.
#[derive(Clone, Copy, Debug, PartialEq, Eq, Structural)]
pub enum KeyAction {
    Nothing,
    /// Load the tracks of the selected playlist.
    LoadPlaylist,
    /// Play the selected track.
    PlayTrack,
    /// Leave the application.
    Quit,
}

/// The application's state. A selection of `None` counts as the first
/// entry.
#[derive(Clone, Debug)]
pub struct App {
    pub menuType: MenuType,
    pub user_profile: Option<UserProfile>,
    pub playlists: Vec<PlayList>,
    pub current_playlist: Option<usize>,
    pub local_tracks: Vec<Track>,
    pub current_track: Option<usize>,
}

/// The selected index, the first one when nothing is selected.
pub open spec fn selected_or_zero(s: Option<usize>) -> int {
    match s {
        Some(i) => i as int,
        None => 0,
    }
}

/// The other list.
pub open spec fn toggled(m: MenuType) -> MenuType {
    match m {
        MenuType::Playlists => MenuType::Tracks,
        MenuType::Tracks => MenuType::Playlists,
    }
}

/// The entry above `sel` in a list of `len` entries, the last one above the
/// first.
pub open spec fn prev_index(sel: int, len: int) -> int {
    (sel + len - 1) % len
}

/// The entry below `sel` in a list of `len` entries, the first one below the
/// last.
pub open spec fn next_index(sel: int, len: int) -> int {
    (sel + len + 1) % len
}

impl App {
    /// The length of the list in focus.
    pub open spec fn active_len(self) -> int {
        match self.menuType {
            MenuType::Playlists => self.playlists@.len() as int,
            MenuType::Tracks => self.local_tracks@.len() as int,
        }
    }

    /// The selection in the list in focus.
    pub open spec fn active_selection(self) -> Option<usize> {
        match self.menuType {
            MenuType::Playlists => self.current_playlist,
            MenuType::Tracks => self.current_track,
        }
    }

    /// The state with `sel` as the selection of the list in focus.
    pub open spec fn with_active_selection(self, sel: int) -> App {
        match self.menuType {
            MenuType::Playlists => App { current_playlist: Some(sel as usize), ..self },
            MenuType::Tracks => App { current_track: Some(sel as usize), ..self },
        }
    }

    /// The keys that move the selection wrap around a list, which must not
    /// be empty, and compute `selection + length ± 1` in a `usize`.
    pub open spec fn key_ok(self, key: char) -> bool {
        &&& key == 'w' ==> self.active_len() > 0 && selected_or_zero(self.active_selection())
            + self.active_len() <= usize::MAX
        &&& key == 's' ==> self.active_len() > 0 && selected_or_zero(self.active_selection())
            + self.active_len() + 1 <= usize::MAX
    }

    /// The state after `key`: `w` and `s` move the selection up and down,
    /// `f` on the playlists moves the focus to the tracks, `a` and `d` switch
    /// the focus; other keys change nothing.
    pub open spec fn after_key(self, key: char) -> App {
        let sel = selected_or_zero(self.active_selection());
        let len = self.active_len();
        if key == 'w' {
            self.with_active_selection(prev_index(sel, len))
        } else if key == 's' {
            self.with_active_selection(next_index(sel, len))
        } else if key == 'f' {
            match self.menuType {
                MenuType::Playlists => App { menuType: MenuType::Tracks, ..self },
                MenuType::Tracks => self,
            }
        } else if key == 'a' || key == 'd' {
            App { menuType: toggled(self.menuType), ..self }
        } else {
            self
        }
    }

    /// What follows `key`: `f` loads the selected playlist or plays the
    /// selected track, `x` quits.
    pub open spec fn action_of(self, key: char) -> KeyAction {
        if key == 'f' {
            match self.menuType {
                MenuType::Playlists => KeyAction::LoadPlaylist,
                MenuType::Tracks => KeyAction::PlayTrack,
            }
        } else if key == 'x' {
            KeyAction::Quit
        } else {
            KeyAction::Nothing
        }
    }

    /// The state before anything is loaded: the playlists have the focus and
    /// the first playlist is selected.
    pub fn new() -> (app: App)
        ensures
            app.menuType == MenuType::Playlists,
            app.user_profile is None,
            app.playlists@.len() == 0,
            app.current_playlist == Some(0usize),
            app.local_tracks@.len() == 0,
            app.current_track is None,
    {
        App {
            menuType: MenuType::Playlists,
            user_profile: None,
            playlists: Vec::new(),
            current_playlist: Some(0),
            local_tracks: Vec::new(),
            current_track: None,
        }
    }

    /// Asks for the playlists of the signed-in user.
    pub fn playlists_request(&self) -> (r: ApiRequest)
        requires
            self.user_profile is Some,
        ensures
            r.path@ == "/weapi/user/playlist"@,
            r.params@ == user_playlist_params(decimal(self.user_profile->0.userId as int)),
    {
        let uid = match &self.user_profile {
            Some(p) => decimal_string(p.userId),
            None => unreached(),
        };
        user_playlist_request(uid.as_str())
    }

    /// Appends playlists to the loaded ones.
    pub fn add_playlists(&mut self, lists: Vec<PlayList>)
        ensures
            final(self).playlists@ == old(self).playlists@ + lists@,
            final(self).menuType == old(self).menuType,
            final(self).user_profile == old(self).user_profile,
            final(self).current_playlist == old(self).current_playlist,
            final(self).local_tracks == old(self).local_tracks,
            final(self).current_track == old(self).current_track,
    {
        let mut lists = lists;
        self.playlists.append(&mut lists);
    }

    /// Asks for the first playlist with its tracks.
    pub fn first_playlist_request(&self) -> (r: ApiRequest)
        requires
            self.playlists@.len() > 0,
        ensures
            r.path@ == "/weapi/v6/playlist/detail"@,
            r.params@ == playlist_detail_params(decimal(self.playlists@[0].id as int)),
    {
        let id = decimal_string(self.playlists[0].id);
        playlist_detail_request(id.as_str())
    }

    /// Appends the tracks of a playlist's detail to the loaded tracks.
    pub fn add_tracks(&mut self, detail: PlayList)
        requires
            detail.tracks is Some,
        ensures
            final(self).local_tracks@ == old(self).local_tracks@ + detail.tracks->0@,
            final(self).menuType == old(self).menuType,
            final(self).user_profile == old(self).user_profile,
            final(self).playlists == old(self).playlists,
            final(self).current_playlist == old(self).current_playlist,
            final(self).current_track == old(self).current_track,
    {
        let mut tracks = detail.tracks.unwrap();
        self.local_tracks.append(&mut tracks);
    }

    /// Asks for the selected playlist with its tracks.
    pub fn selected_playlist_request(&self) -> (r: ApiRequest)
        requires
            selected_or_zero(self.current_playlist) < self.playlists@.len(),
        ensures
            r.path@ == "/weapi/v6/playlist/detail"@,
            r.params@ == playlist_detail_params(
                decimal(self.playlists@[selected_or_zero(self.current_playlist)].id as int),
            ),
    {
        let i = match self.current_playlist {
            Some(i) => i,
            None => 0,
        };
        let id = decimal_string(self.playlists[i].id);
        playlist_detail_request(id.as_str())
    }

    /// Replaces the loaded tracks by those of a playlist's detail and selects
    /// the first.
    pub fn load_tracks(&mut self, detail: PlayList)
        requires
            detail.tracks is Some,
        ensures
            final(self).local_tracks@ == detail.tracks->0@,
            final(self).current_track == Some(0usize),
            final(self).menuType == old(self).menuType,
            final(self).user_profile == old(self).user_profile,
            final(self).playlists == old(self).playlists,
            final(self).current_playlist == old(self).current_playlist,
    {
        self.local_tracks = detail.tracks.unwrap();
        self.current_track = Some(0);
    }

    /// Asks where the selected track can be fetched.
    pub fn selected_track_request(&self) -> (r: ApiRequest)
        requires
            selected_or_zero(self.current_track) < self.local_tracks@.len(),
        ensures
            r.path@ == "/weapi/song/enhance/player/url"@,
            r.params@ == player_info_params(
                decimal(self.local_tracks@[selected_or_zero(self.current_track)].id as int),
            ),
    {
        let i = match self.current_track {
            Some(i) => i,
            None => 0,
        };
        let id = decimal_string(self.local_tracks[i].id);
        player_info_request(id.as_str())
    }

    fn moved_selection(sel: Option<usize>, len: usize, up: bool) -> (r: usize)
        requires
            len > 0,
            up ==> selected_or_zero(sel) + len <= usize::MAX,
            !up ==> selected_or_zero(sel) + len + 1 <= usize::MAX,
        ensures
            up ==> r == prev_index(selected_or_zero(sel), len as int),
            !up ==> r == next_index(selected_or_zero(sel), len as int),
    {
        let s = match sel {
            Some(i) => i,
            None => 0,
        };
        if up {
            (s + len - 1) % len
        } else {
            (s + len + 1) % len
        }
    }

    /// Handles a key press.
    pub fn handle_key(&mut self, key: char) -> (a: KeyAction)
        requires
            old(self).key_ok(key),
        ensures
            *final(self) == old(self).after_key(key),
            a == old(self).action_of(key),
            key == 'x' ==> a == KeyAction::Quit && *final(self) == *old(self),
            key == 'f' && old(self).menuType == MenuType::Playlists ==> a
                == KeyAction::LoadPlaylist && final(self).menuType == MenuType::Tracks,
            key == 'f' && old(self).menuType == MenuType::Tracks ==> a == KeyAction::PlayTrack
                && *final(self) == *old(self),
            (key == 'a' || key == 'd') ==> a == KeyAction::Nothing && final(self).menuType
                != old(self).menuType,
    {
        if key == 'w' || key == 's' {
            let up = key == 'w';
            match self.menuType {
                MenuType::Playlists => {
                    let i = Self::moved_selection(self.current_playlist, self.playlists.len(), up);
                    self.current_playlist = Some(i);
                },
                MenuType::Tracks => {
                    let i = Self::moved_selection(self.current_track, self.local_tracks.len(), up);
                    self.current_track = Some(i);
                },
            }
            KeyAction::Nothing
        } else if key == 'f' {
            match self.menuType {
                MenuType::Playlists => {
                    self.menuType = MenuType::Tracks;
                    KeyAction::LoadPlaylist
                },
                MenuType::Tracks => KeyAction::PlayTrack,
            }
        } else if key == 'a' || key == 'd' {
            self.menuType = match self.menuType {
                MenuType::Playlists => MenuType::Tracks,
                MenuType::Tracks => MenuType::Playlists,
            };
            KeyAction::Nothing
        } else if key == 'x' {
            KeyAction::Quit
        } else {
            KeyAction::Nothing
        }
    }
}

/// Moving up and down wraps around and stays inside the list, and one move
/// up undoes one move down and the other way round.
pub proof fn lemma_prev_next_inverse(sel: int, len: int)
    requires
        0 <= sel < len,
    ensures
        0 <= prev_index(sel, len) < len,
        0 <= next_index(sel, len) < len,
        next_index(prev_index(sel, len), len) == sel,
        prev_index(next_index(sel, len), len) == sel,
{
    if sel == 0 {
        assert(prev_index(sel, len) == len - 1) by (nonlinear_arith)
            requires
                sel == 0,
                len > 0,
        ;
    } else {
        assert(prev_index(sel, len) == sel - 1) by (nonlinear_arith)
            requires
                0 < sel < len,
        ;
    }
    if sel == len - 1 {
        assert(next_index(sel, len) == 0) by (nonlinear_arith)
            requires
                sel == len - 1,
                len > 0,
        ;
    } else {
        assert(next_index(sel, len) == sel + 1) by (nonlinear_arith)
            requires
                0 <= sel < len - 1,
        ;
    }
    let p = prev_index(sel, len);
    let n = next_index(sel, len);
    if p == len - 1 {
        assert(next_index(p, len) == 0) by (nonlinear_arith)
            requires
                p == len - 1,
                len > 0,
        ;
    } else {
        assert(next_index(p, len) == p + 1) by (nonlinear_arith)
            requires
                0 <= p < len - 1,
        ;
    }
    if n == 0 {
        assert(prev_index(n, len) == len - 1) by (nonlinear_arith)
            requires
                n == 0,
                len > 0,
        ;
    } else {
        assert(prev_index(n, len) == n - 1) by (nonlinear_arith)
            requires
                0 < n < len,
        ;
    }
}

/// Both moves can follow each other whenever the list's length doubled fits
/// in a `usize`.
pub proof fn lemma_moves_fit(app: App, first: char, second: char)
    requires
        (first == 'w' && second == 's') || (first == 's' && second == 'w'),
        selected_or_zero(app.active_selection()) < app.active_len(),
        2 * app.active_len() <= usize::MAX,
    ensures
        app.key_ok(first),
        app.after_key(first).key_ok(second),
{
    lemma_move_in_range(app, first);
}

/// Whatever the selection was, a move leaves an index inside the list.
pub proof fn lemma_move_in_range(app: App, key: char)
    requires
        app.key_ok(key),
        key == 'w' || key == 's',
    ensures
        0 <= selected_or_zero(app.after_key(key).active_selection()) < app.active_len(),
        app.after_key(key).active_len() == app.active_len(),
        app.after_key(key).menuType == app.menuType,
{
}

/// Pressing `w` and then `s` (or `s` and then `w`) gives back the state one
/// started from, when an entry inside the list was selected and neither key
/// overflows its `usize` sum.
pub proof fn lemma_up_down_restores(app: App, first: char, second: char)
    requires
        (first == 'w' && second == 's') || (first == 's' && second == 'w'),
        app.active_selection() is Some,
        selected_or_zero(app.active_selection()) < app.active_len(),
        app.key_ok(first),
        app.after_key(first).key_ok(second),
    ensures
        app.after_key(first).after_key(second) == app,
{
    let sel = selected_or_zero(app.active_selection());
    let len = app.active_len();
    lemma_prev_next_inverse(sel, len);
    let mid = app.after_key(first);
    assert(mid.menuType == app.menuType);
    assert(mid.after_key(second) =~= app);
}

/// Keys change only the focus and the selections, never the loaded data.
pub proof fn lemma_keys_keep_data(app: App, key: char)
    ensures
        app.after_key(key).user_profile == app.user_profile,
        app.after_key(key).playlists == app.playlists,
        app.after_key(key).local_tracks == app.local_tracks,
        key != 'w' && key != 's' ==> app.after_key(key).current_playlist == app.current_playlist
            && app.after_key(key).current_track == app.current_track,
{
}

/// Switching the focus twice gives back the state one started from.
pub proof fn lemma_switch_twice(app: App, first: char, second: char)
    requires
        first == 'a' || first == 'd',
        second == 'a' || second == 'd',
    ensures
        app.after_key(first).after_key(second) == app,
        app.action_of(first) == KeyAction::Nothing,
{
}

/// What the command keys do, in every state: `x` quits and changes nothing;
/// `f` on the playlists loads the selected one and moves the focus to the
/// tracks, on the tracks plays the selected one; `a` and `d` move the focus
/// to the other list; `w` and `s` only move; any other key does nothing.
pub proof fn lemma_command_keys(app: App, key: char)
    ensures
        app.action_of('x') == KeyAction::Quit,
        app.after_key('x') == app,
        app.menuType == MenuType::Playlists ==> app.action_of('f') == KeyAction::LoadPlaylist
            && app.after_key('f').menuType == MenuType::Tracks && app.after_key('f').current_playlist
            == app.current_playlist && app.after_key('f').current_track == app.current_track,
        app.menuType == MenuType::Tracks ==> app.action_of('f') == KeyAction::PlayTrack
            && app.after_key('f') == app,
        (key == 'a' || key == 'd') ==> app.action_of(key) == KeyAction::Nothing
            && app.after_key(key).menuType != app.menuType && app.after_key(key).current_playlist
            == app.current_playlist && app.after_key(key).current_track == app.current_track,
        (key == 'w' || key == 's') ==> app.action_of(key) == KeyAction::Nothing
            && app.after_key(key).menuType == app.menuType,
        key != 'w' && key != 's' && key != 'f' && key != 'a' && key != 'd' && key != 'x' ==> app.action_of(
            key,
        ) == KeyAction::Nothing && app.after_key(key) == app,
{
}

/// A move up selects the entry just above (the last one from the first), a
/// move down the entry just below (the first one from the last); the other
/// list's selection and the focus stay.
pub proof fn lemma_moves_step_by_one(app: App, key: char)
    requires
        key == 'w' || key == 's',
        0 <= selected_or_zero(app.active_selection()) < app.active_len(),
        app.active_len() <= usize::MAX,
    ensures
        ({
            let sel = selected_or_zero(app.active_selection());
            let len = app.active_len();
            let next = app.after_key(key);
            &&& next.menuType == app.menuType
            &&& next.active_selection() is Some
            &&& key == 'w' ==> selected_or_zero(next.active_selection()) == if sel == 0 {
                len - 1
            } else {
                sel - 1
            }
            &&& key == 's' ==> selected_or_zero(next.active_selection()) == if sel == len - 1 {
                0
            } else {
                sel + 1
            }
            &&& app.menuType == MenuType::Playlists ==> next.current_track == app.current_track
            &&& app.menuType == MenuType::Tracks ==> next.current_playlist == app.current_playlist
        }),
{
    let sel = selected_or_zero(app.active_selection());
    let len = app.active_len();
    lemma_prev_next_inverse(sel, len);
    lemma_move_in_range_spec(sel, len);
    let m = if key == 'w' {
        prev_index(sel, len)
    } else {
        next_index(sel, len)
    };
    assert(0 <= m < len);
    assert((m as usize) as int == m);
    if app.menuType == MenuType::Playlists {
        assert(app.after_key(key).current_playlist == Some(m as usize));
    } else {
        assert(app.after_key(key).current_track == Some(m as usize));
    }
}

proof fn lemma_move_in_range_spec(sel: int, len: int)
    requires
        0 <= sel < len,
    ensures
        prev_index(sel, len) == if sel == 0 {
            len - 1
        } else {
            sel - 1
        },
        next_index(sel, len) == if sel == len - 1 {
            0
        } else {
            sel + 1
        },
{
    if sel == 0 {
        assert(prev_index(sel, len) == len - 1) by (nonlinear_arith)
            requires
                sel == 0,
                len > 0,
        ;
    } else {
        assert(prev_index(sel, len) == sel - 1) by (nonlinear_arith)
            requires
                0 < sel < len,
        ;
    }
    if sel == len - 1 {
        assert(next_index(sel, len) == 0) by (nonlinear_arith)
            requires
                sel == len - 1,
                len > 0,
        ;
    } else {
        assert(next_index(sel, len) == sel + 1) by (nonlinear_arith)
            requires
                0 <= sel < len - 1,
        ;
    }
}

} // verus!

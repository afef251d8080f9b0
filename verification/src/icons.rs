//! The icons of the interface and the files that hold them.

use crate::assets::{ends_with, starts_with};
use vstd::prelude::*;

verus! {

/// An icon of the interface.
#[derive(Clone, Copy, PartialEq, Eq, Debug, Structural)]
pub enum Icons {
    Music,
    MusicList,
    WinClose,
    WinMax,
    WinRes,
    WinMin,
    Settings,
    Play,
    Pause,
    Next,
    Prev,
    Shuffle,
    Repeat,
    Volume0,
    Volume1,
    Volume2,
    VolumeMute,
    Menu,
    Ellipsis,
    Search,
    ToastInfo,
    ToastSuccess,
    ToastError,
    Loader,
    Scan,
    PanelRight,
    Home,
    Disc,
    Playlist,
    Plugins,
    User,
    Heart,
    FolderOpen,
    Trash,
    Chart,
    PopOut,
}

/// The path, within the bundled assets, of the file that holds an icon.
pub open spec fn icon_path(icon: Icons) -> Seq<char> {
    match icon {
        Icons::Music => "icons/music.svg"@,
        Icons::MusicList => "icons/playlist.svg"@,
        Icons::WinClose => "icons/window-close.svg"@,
        Icons::WinMax => "icons/window-maximize.svg"@,
        Icons::WinRes => "icons/window-restore.svg"@,
        Icons::WinMin => "icons/window-minimize.svg"@,
        Icons::Settings => "icons/settings.svg"@,
        Icons::Play => "icons/play.svg"@,
        Icons::Pause => "icons/pause.svg"@,
        Icons::Next => "icons/next.svg"@,
        Icons::Prev => "icons/prev.svg"@,
        Icons::Shuffle => "icons/shuffle.svg"@,
        Icons::Repeat => "icons/repeat.svg"@,
        Icons::Volume0 => "icons/volume-0.svg"@,
        Icons::Volume1 => "icons/volume-1.svg"@,
        Icons::Volume2 => "icons/volume-2.svg"@,
        Icons::VolumeMute => "icons/volume-mute.svg"@,
        Icons::Menu => "icons/menu.svg"@,
        Icons::Ellipsis => "icons/ellipsis.svg"@,
        Icons::Search => "icons/search.svg"@,
        Icons::ToastInfo => "icons/toast_info.svg"@,
        Icons::ToastSuccess => "icons/toast_success.svg"@,
        Icons::ToastError => "icons/toast_error.svg"@,
        Icons::Loader => "icons/loader.svg"@,
        Icons::Scan => "icons/scan.svg"@,
        Icons::PanelRight => "icons/panel_right.svg"@,
        Icons::Home => "icons/home.svg"@,
        Icons::Disc => "icons/disc.svg"@,
        Icons::Playlist => "icons/playlist.svg"@,
        Icons::Plugins => "icons/plugins.svg"@,
        Icons::User => "icons/user.svg"@,
        Icons::Heart => "icons/heart.svg"@,
        Icons::FolderOpen => "icons/folder-open.svg"@,
        Icons::Trash => "icons/trash.svg"@,
        Icons::Chart => "icons/chart.svg"@,
        Icons::PopOut => "icons/pop-out.svg"@,
    }
}

impl Icons {
    /// The path, within the bundled assets, of the file that holds the icon.
    pub fn path(self) -> (p: &'static str)
        ensures
            p@ == icon_path(self),
    {
        match self {
            Icons::Music => "icons/music.svg",
            Icons::MusicList => "icons/playlist.svg",
            Icons::WinClose => "icons/window-close.svg",
            Icons::WinMax => "icons/window-maximize.svg",
            Icons::WinRes => "icons/window-restore.svg",
            Icons::WinMin => "icons/window-minimize.svg",
            Icons::Settings => "icons/settings.svg",
            Icons::Play => "icons/play.svg",
            Icons::Pause => "icons/pause.svg",
            Icons::Next => "icons/next.svg",
            Icons::Prev => "icons/prev.svg",
            Icons::Shuffle => "icons/shuffle.svg",
            Icons::Repeat => "icons/repeat.svg",
            Icons::Volume0 => "icons/volume-0.svg",
            Icons::Volume1 => "icons/volume-1.svg",
            Icons::Volume2 => "icons/volume-2.svg",
            Icons::VolumeMute => "icons/volume-mute.svg",
            Icons::Menu => "icons/menu.svg",
            Icons::Ellipsis => "icons/ellipsis.svg",
            Icons::Search => "icons/search.svg",
            Icons::ToastInfo => "icons/toast_info.svg",
            Icons::ToastSuccess => "icons/toast_success.svg",
            Icons::ToastError => "icons/toast_error.svg",
            Icons::Loader => "icons/loader.svg",
            Icons::Scan => "icons/scan.svg",
            Icons::PanelRight => "icons/panel_right.svg",
            Icons::Home => "icons/home.svg",
            Icons::Disc => "icons/disc.svg",
            Icons::Playlist => "icons/playlist.svg",
            Icons::Plugins => "icons/plugins.svg",
            Icons::User => "icons/user.svg",
            Icons::Heart => "icons/heart.svg",
            Icons::FolderOpen => "icons/folder-open.svg",
            Icons::Trash => "icons/trash.svg",
            Icons::Chart => "icons/chart.svg",
            Icons::PopOut => "icons/pop-out.svg",
        }
    }
}


/// Every icon file lies under "icons/" and is an SVG file, and two icons share
/// a file only when they are the music-list and playlist icons, which share
/// "icons/playlist.svg".
pub proof fn law_icon_paths(i: Icons, j: Icons)
    ensures
        starts_with(icon_path(i), "icons/"@),
        ends_with(icon_path(i), ".svg"@),
        (icon_path(i) == icon_path(j)) <==> (i == j || (i == Icons::MusicList && j == Icons::Playlist) || (
        i == Icons::Playlist && j == Icons::MusicList)),
{
    let p = icon_path(i);
    let q = icon_path(j);
    assert(starts_with(p, "icons/"@) && ends_with(p, ".svg"@)) by {
        reveal_strlit("icons/chart.svg");
        reveal_strlit("icons/disc.svg");
        reveal_strlit("icons/ellipsis.svg");
        reveal_strlit("icons/folder-open.svg");
        reveal_strlit("icons/heart.svg");
        reveal_strlit("icons/home.svg");
        reveal_strlit("icons/loader.svg");
        reveal_strlit("icons/menu.svg");
        reveal_strlit("icons/music.svg");
        reveal_strlit("icons/next.svg");
        reveal_strlit("icons/panel_right.svg");
        reveal_strlit("icons/pause.svg");
        reveal_strlit("icons/play.svg");
        reveal_strlit("icons/playlist.svg");
        reveal_strlit("icons/plugins.svg");
        reveal_strlit("icons/pop-out.svg");
        reveal_strlit("icons/prev.svg");
        reveal_strlit("icons/repeat.svg");
        reveal_strlit("icons/scan.svg");
        reveal_strlit("icons/search.svg");
        reveal_strlit("icons/settings.svg");
        reveal_strlit("icons/shuffle.svg");
        reveal_strlit("icons/toast_error.svg");
        reveal_strlit("icons/toast_info.svg");
        reveal_strlit("icons/toast_success.svg");
        reveal_strlit("icons/trash.svg");
        reveal_strlit("icons/user.svg");
        reveal_strlit("icons/volume-0.svg");
        reveal_strlit("icons/volume-1.svg");
        reveal_strlit("icons/volume-2.svg");
        reveal_strlit("icons/volume-mute.svg");
        reveal_strlit("icons/window-close.svg");
        reveal_strlit("icons/window-maximize.svg");
        reveal_strlit("icons/window-minimize.svg");
        reveal_strlit("icons/window-restore.svg");
        reveal_strlit("icons/");
        reveal_strlit(".svg");
        assert(p.take(6) =~= "icons/"@);
        assert(p.skip(p.len() - 4) =~= ".svg"@);
    }
    if p == q {
        assert(i == j || (i == Icons::MusicList && j == Icons::Playlist) || (i == Icons::Playlist && j
            == Icons::MusicList)) by {
        reveal_strlit("icons/chart.svg");
        reveal_strlit("icons/disc.svg");
        reveal_strlit("icons/ellipsis.svg");
        reveal_strlit("icons/folder-open.svg");
        reveal_strlit("icons/heart.svg");
        reveal_strlit("icons/home.svg");
        reveal_strlit("icons/loader.svg");
        reveal_strlit("icons/menu.svg");
        reveal_strlit("icons/music.svg");
        reveal_strlit("icons/next.svg");
        reveal_strlit("icons/panel_right.svg");
        reveal_strlit("icons/pause.svg");
        reveal_strlit("icons/play.svg");
        reveal_strlit("icons/playlist.svg");
        reveal_strlit("icons/plugins.svg");
        reveal_strlit("icons/pop-out.svg");
        reveal_strlit("icons/prev.svg");
        reveal_strlit("icons/repeat.svg");
        reveal_strlit("icons/scan.svg");
        reveal_strlit("icons/search.svg");
        reveal_strlit("icons/settings.svg");
        reveal_strlit("icons/shuffle.svg");
        reveal_strlit("icons/toast_error.svg");
        reveal_strlit("icons/toast_info.svg");
        reveal_strlit("icons/toast_success.svg");
        reveal_strlit("icons/trash.svg");
        reveal_strlit("icons/user.svg");
        reveal_strlit("icons/volume-0.svg");
        reveal_strlit("icons/volume-1.svg");
        reveal_strlit("icons/volume-2.svg");
        reveal_strlit("icons/volume-mute.svg");
        reveal_strlit("icons/window-close.svg");
        reveal_strlit("icons/window-maximize.svg");
        reveal_strlit("icons/window-minimize.svg");
        reveal_strlit("icons/window-restore.svg");
            assert(p.len() == q.len());
            assert(p[6] == q[6]);
            assert(p[7] == q[7]);
            assert(p[13] == q[13]);
            assert(p.len() >= 15 ==> p[14] == q[14]);
        }
    }
    if i == Icons::MusicList && j == Icons::Playlist || i == Icons::Playlist && j == Icons::MusicList {
        assert(p == q);
    }
}

} // verus!

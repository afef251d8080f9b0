//! What the home and stats sections of the library show, in which order, and
//! the captions and labels written on them.

use crate::routes::LibraryRoutes;
use crate::timefmt::{
    date_of_days, date_text, decimal, fmt_date, pad2, push_char, push_decimal, push_pad2,
};
use vstd::prelude::*;
use vstd::string::*;

verus! {

/// A row of the home section.
#[derive(Clone, Copy, PartialEq, Eq, Debug, Structural)]
pub enum HomeRow {
    EmptyLibrary,
    ListeningSummary,
    TopTracks,
    RecentlyPlayed,
    TopArtists,
    Albums,
    Artists,
    Playlists,
}

/// What the home section has to show: how many tracks the library holds, how
/// many plays were counted, and how many items each row would list.
#[derive(Clone, Copy, PartialEq, Eq, Debug, Structural)]
pub struct HomeContent {
    pub track_count: usize,
    pub total_plays: u64,
    pub top_tracks: usize,
    pub recently_played: usize,
    pub top_artists: usize,
    pub albums: usize,
    pub artists: usize,
    pub playlists: usize,
}

/// The one-row sequence of `r` when `shown`, else nothing.
pub open spec fn row_if<R>(shown: bool, r: R) -> Seq<R> {
    if shown {
        seq![r]
    } else {
        Seq::empty()
    }
}

/// The rows of the home section: a notice alone when the library holds no
/// track; else the listening summary once something was played, then each
/// row that has something to list, in a fixed order.
pub open spec fn home_rows_spec(c: HomeContent) -> Seq<HomeRow> {
    if c.track_count == 0 {
        seq![HomeRow::EmptyLibrary]
    } else {
        row_if(c.total_plays > 0, HomeRow::ListeningSummary)
            + row_if(c.top_tracks > 0, HomeRow::TopTracks)
            + row_if(c.recently_played > 0, HomeRow::RecentlyPlayed)
            + row_if(c.top_artists > 0, HomeRow::TopArtists)
            + row_if(c.albums > 0, HomeRow::Albums)
            + row_if(c.artists > 0, HomeRow::Artists)
            + row_if(c.playlists > 0, HomeRow::Playlists)
    }
}

/// Lists the rows of the home section.
pub fn home_rows(c: &HomeContent) -> (r: Vec<HomeRow>)
    ensures
        r@ == home_rows_spec(*c),
{
    let mut r: Vec<HomeRow> = Vec::new();
    if c.track_count == 0 {
        r.push(HomeRow::EmptyLibrary);
        assert(r@ =~= home_rows_spec(*c));
        return r;
    }
    if c.total_plays > 0 {
        r.push(HomeRow::ListeningSummary);
    }
    if c.top_tracks > 0 {
        r.push(HomeRow::TopTracks);
    }
    if c.recently_played > 0 {
        r.push(HomeRow::RecentlyPlayed);
    }
    if c.top_artists > 0 {
        r.push(HomeRow::TopArtists);
    }
    if c.albums > 0 {
        r.push(HomeRow::Albums);
    }
    if c.artists > 0 {
        r.push(HomeRow::Artists);
    }
    if c.playlists > 0 {
        r.push(HomeRow::Playlists);
    }
    assert(r@ =~= home_rows_spec(*c));
    r
}

/// The place of a row in the fixed order of the home section.
pub open spec fn home_rank(r: HomeRow) -> int {
    match r {
        HomeRow::EmptyLibrary => 0,
        HomeRow::ListeningSummary => 1,
        HomeRow::TopTracks => 2,
        HomeRow::RecentlyPlayed => 3,
        HomeRow::TopArtists => 4,
        HomeRow::Albums => 5,
        HomeRow::Artists => 6,
        HomeRow::Playlists => 7,
    }
}

/// The rows of `s` stand in strictly increasing places.
pub open spec fn ranks_increase(s: Seq<HomeRow>) -> bool {
    forall|i: int, j: int| 0 <= i < j < s.len() ==> home_rank(#[trigger] s[i]) < home_rank(#[trigger] s[j])
}

/// Appending a row that stands after every row already there keeps the
/// places increasing, and the new sequence ends no later than that row.
proof fn lemma_append_row(s: Seq<HomeRow>, shown: bool, r: HomeRow)
    requires
        ranks_increase(s),
        1 <= home_rank(r),
        forall|i: int| 0 <= i < s.len() ==> 1 <= home_rank(#[trigger] s[i]) < home_rank(r),
    ensures
        ranks_increase(s + row_if(shown, r)),
        forall|i: int|
            0 <= i < (s + row_if(shown, r)).len() ==> 1 <= home_rank(#[trigger] (s + row_if(shown, r))[i])
                <= home_rank(r),
{
    let t = s + row_if(shown, r);
    assert forall|i: int, j: int| 0 <= i < j < t.len() implies home_rank(#[trigger] t[i]) < home_rank(
        #[trigger] t[j],
    ) by {
        if j >= s.len() {
            assert(t[j] == r);
        } else {
            assert(t[i] == s[i] && t[j] == s[j]);
        }
    }
    assert forall|i: int| 0 <= i < t.len() implies 1 <= home_rank(#[trigger] t[i]) <= home_rank(r) by {
        if i < s.len() {
            assert(t[i] == s[i]);
        } else {
            assert(t[i] == r);
        }
    }
}

/// The notice of an empty library shows exactly when the library holds no
/// track, and then alone; every other row shows at most once, always in the
/// same order: summary, top tracks, recently played, top artists, albums,
/// artists, playlists.
pub proof fn law_home_rows(c: HomeContent)
    ensures
        c.track_count == 0 ==> home_rows_spec(c) == seq![HomeRow::EmptyLibrary],
        c.track_count != 0 ==> !home_rows_spec(c).contains(HomeRow::EmptyLibrary),
        ranks_increase(home_rows_spec(c)),
{
    if c.track_count != 0 {
        let s0: Seq<HomeRow> = Seq::empty();
        let s1 = s0 + row_if(c.total_plays > 0, HomeRow::ListeningSummary);
        let s2 = s1 + row_if(c.top_tracks > 0, HomeRow::TopTracks);
        let s3 = s2 + row_if(c.recently_played > 0, HomeRow::RecentlyPlayed);
        let s4 = s3 + row_if(c.top_artists > 0, HomeRow::TopArtists);
        let s5 = s4 + row_if(c.albums > 0, HomeRow::Albums);
        let s6 = s5 + row_if(c.artists > 0, HomeRow::Artists);
        let s7 = s6 + row_if(c.playlists > 0, HomeRow::Playlists);
        lemma_append_row(s0, c.total_plays > 0, HomeRow::ListeningSummary);
        lemma_append_row(s1, c.top_tracks > 0, HomeRow::TopTracks);
        lemma_append_row(s2, c.recently_played > 0, HomeRow::RecentlyPlayed);
        lemma_append_row(s3, c.top_artists > 0, HomeRow::TopArtists);
        lemma_append_row(s4, c.albums > 0, HomeRow::Albums);
        lemma_append_row(s5, c.artists > 0, HomeRow::Artists);
        lemma_append_row(s6, c.playlists > 0, HomeRow::Playlists);
        assert(s7 =~= home_rows_spec(c)) by {
            assert(s1 =~= row_if(c.total_plays > 0, HomeRow::ListeningSummary));
        }
        assert(!s7.contains(HomeRow::EmptyLibrary));
    }
}

/// In a library that holds tracks, the home section shows the listening
/// summary exactly when something was played, and each other row exactly
/// when it has something to list.
pub proof fn law_home_rows_shown(c: HomeContent)
    requires
        c.track_count != 0,
    ensures
        home_rows_spec(c).contains(HomeRow::ListeningSummary) <==> c.total_plays > 0,
        home_rows_spec(c).contains(HomeRow::TopTracks) <==> c.top_tracks > 0,
        home_rows_spec(c).contains(HomeRow::RecentlyPlayed) <==> c.recently_played > 0,
        home_rows_spec(c).contains(HomeRow::TopArtists) <==> c.top_artists > 0,
        home_rows_spec(c).contains(HomeRow::Albums) <==> c.albums > 0,
        home_rows_spec(c).contains(HomeRow::Artists) <==> c.artists > 0,
        home_rows_spec(c).contains(HomeRow::Playlists) <==> c.playlists > 0,
{
    let s0: Seq<HomeRow> = Seq::empty();
    let s1 = s0 + row_if(c.total_plays > 0, HomeRow::ListeningSummary);
    let s2 = s1 + row_if(c.top_tracks > 0, HomeRow::TopTracks);
    let s3 = s2 + row_if(c.recently_played > 0, HomeRow::RecentlyPlayed);
    let s4 = s3 + row_if(c.top_artists > 0, HomeRow::TopArtists);
    let s5 = s4 + row_if(c.albums > 0, HomeRow::Albums);
    let s6 = s5 + row_if(c.artists > 0, HomeRow::Artists);
    let s7 = s6 + row_if(c.playlists > 0, HomeRow::Playlists);
    assert(s7 =~= home_rows_spec(c)) by {
        assert(s1 =~= row_if(c.total_plays > 0, HomeRow::ListeningSummary));
    }
    lemma_row_if_contains(s0, c.total_plays > 0, HomeRow::ListeningSummary);
    lemma_row_if_contains(s1, c.top_tracks > 0, HomeRow::TopTracks);
    lemma_row_if_contains(s2, c.recently_played > 0, HomeRow::RecentlyPlayed);
    lemma_row_if_contains(s3, c.top_artists > 0, HomeRow::TopArtists);
    lemma_row_if_contains(s4, c.albums > 0, HomeRow::Albums);
    lemma_row_if_contains(s5, c.artists > 0, HomeRow::Artists);
    lemma_row_if_contains(s6, c.playlists > 0, HomeRow::Playlists);
    assert(!s0.contains(HomeRow::ListeningSummary));
}

/// A sequence with a row appended when `shown` holds what it held before,
/// and that row exactly when it was shown.
proof fn lemma_row_if_contains<R>(s: Seq<R>, shown: bool, r: R)
    ensures
        forall|x: R| #[trigger] (s + row_if(shown, r)).contains(x) <==> (s.contains(x) || (shown && x == r)),
{
    let t = s + row_if(shown, r);
    assert forall|x: R| #[trigger] t.contains(x) <==> (s.contains(x) || (shown && x == r)) by {
        if t.contains(x) {
            let k = choose|k: int| 0 <= k < t.len() && t[k] == x;
            if k < s.len() {
                assert(s[k] == x);
            }
        }
        if s.contains(x) {
            let k = choose|k: int| 0 <= k < s.len() && s[k] == x;
            assert(t[k] == x);
        }
        if shown && x == r {
            assert(t[s.len() as int] == x);
        }
    }
}

/// The title of a row of the home section and the section its header leads
/// to; the notice and the summary have no header.
pub open spec fn home_header_spec(row: HomeRow) -> Option<(Seq<char>, LibraryRoutes)> {
    match row {
        HomeRow::EmptyLibrary => None,
        HomeRow::ListeningSummary => None,
        HomeRow::TopTracks => Some(("Top Tracks"@, LibraryRoutes::Tracks)),
        HomeRow::RecentlyPlayed => Some(("Recently Played"@, LibraryRoutes::Tracks)),
        HomeRow::TopArtists => Some(("Top Artists"@, LibraryRoutes::Artists)),
        HomeRow::Albums => Some(("Albums"@, LibraryRoutes::Albums)),
        HomeRow::Artists => Some(("Artists"@, LibraryRoutes::Artists)),
        HomeRow::Playlists => Some(("Playlists"@, LibraryRoutes::Playlists)),
    }
}

/// Gives the header of a row of the home section.
pub fn home_header(row: HomeRow) -> (h: Option<(&'static str, LibraryRoutes)>)
    ensures
        match h {
            Some((t, route)) => home_header_spec(row) == Some((t@, route)),
            None => home_header_spec(row) is None,
        },
{
    match row {
        HomeRow::EmptyLibrary => None,
        HomeRow::ListeningSummary => None,
        HomeRow::TopTracks => Some(("Top Tracks", LibraryRoutes::Tracks)),
        HomeRow::RecentlyPlayed => Some(("Recently Played", LibraryRoutes::Tracks)),
        HomeRow::TopArtists => Some(("Top Artists", LibraryRoutes::Artists)),
        HomeRow::Albums => Some(("Albums", LibraryRoutes::Albums)),
        HomeRow::Artists => Some(("Artists", LibraryRoutes::Artists)),
        HomeRow::Playlists => Some(("Playlists", LibraryRoutes::Playlists)),
    }
}

/// A row of the stats section.
#[derive(Clone, Copy, PartialEq, Eq, Debug, Structural)]
pub enum StatsRow {
    NoStats,
    Banner,
    StatGrid,
    TopTracks,
    TopArtists,
    TopAlbums,
}

/// The rows of the stats section: a notice alone while nothing was played;
/// else the banner and the grid of figures, then each top list that is not
/// empty.
pub open spec fn stats_rows_spec(
    total_plays: u64,
    top_tracks: usize,
    top_artists: usize,
    top_albums: usize,
) -> Seq<StatsRow> {
    if total_plays == 0 {
        seq![StatsRow::NoStats]
    } else {
        seq![StatsRow::Banner, StatsRow::StatGrid] + row_if(top_tracks > 0, StatsRow::TopTracks)
            + row_if(top_artists > 0, StatsRow::TopArtists) + row_if(
            top_albums > 0,
            StatsRow::TopAlbums,
        )
    }
}

/// The stats section shows its notice, alone, exactly when nothing was
/// played. Otherwise it opens with the banner and the grid of figures, never
/// shows the notice, and shows each top list exactly when that list is not
/// empty, after the grid, in the order tracks, artists, albums, each at most
/// once.
pub proof fn law_stats_rows(total_plays: u64, top_tracks: usize, top_artists: usize, top_albums: usize)
    ensures
        ({
            let r = stats_rows_spec(total_plays, top_tracks, top_artists, top_albums);
            &&& total_plays == 0 ==> r == seq![StatsRow::NoStats]
            &&& total_plays > 0 ==> {
                &&& r.len() >= 2
                &&& r[0] == StatsRow::Banner
                &&& r[1] == StatsRow::StatGrid
                &&& !r.contains(StatsRow::NoStats)
                &&& r.contains(StatsRow::TopTracks) <==> top_tracks > 0
                &&& r.contains(StatsRow::TopArtists) <==> top_artists > 0
                &&& r.contains(StatsRow::TopAlbums) <==> top_albums > 0
                &&& r.len() == 2 + (if top_tracks > 0 { 1int } else { 0 }) + (if top_artists > 0 { 1int } else { 0 })
                    + (if top_albums > 0 { 1int } else { 0 })
                &&& forall|i: int, j: int|
                    0 <= i < j < r.len() ==> stats_rank(#[trigger] r[i]) < stats_rank(#[trigger] r[j])
            }
        }),
{
    if total_plays > 0 {
        let s0: Seq<StatsRow> = seq![StatsRow::Banner, StatsRow::StatGrid];
        let s1 = s0 + row_if(top_tracks > 0, StatsRow::TopTracks);
        let s2 = s1 + row_if(top_artists > 0, StatsRow::TopArtists);
        let s3 = s2 + row_if(top_albums > 0, StatsRow::TopAlbums);
        assert(s3 =~= stats_rows_spec(total_plays, top_tracks, top_artists, top_albums));
        lemma_row_if_contains(s0, top_tracks > 0, StatsRow::TopTracks);
        lemma_row_if_contains(s1, top_artists > 0, StatsRow::TopArtists);
        lemma_row_if_contains(s2, top_albums > 0, StatsRow::TopAlbums);
        assert(!s0.contains(StatsRow::NoStats) && !s0.contains(StatsRow::TopTracks) && !s0.contains(
            StatsRow::TopArtists,
        ) && !s0.contains(StatsRow::TopAlbums));
        assert forall|i: int, j: int| 0 <= i < j < s3.len() implies stats_rank(#[trigger] s3[i]) < stats_rank(
            #[trigger] s3[j],
        ) by {
            lemma_stats_ranks(s0, s1, s2, s3, top_tracks > 0, top_artists > 0, top_albums > 0);
        }
    }
}

/// The place of a row in the fixed order of the stats section.
pub open spec fn stats_rank(r: StatsRow) -> int {
    match r {
        StatsRow::NoStats => 0,
        StatsRow::Banner => 1,
        StatsRow::StatGrid => 2,
        StatsRow::TopTracks => 3,
        StatsRow::TopArtists => 4,
        StatsRow::TopAlbums => 5,
    }
}

/// The rows built step by step stand in strictly increasing places.
proof fn lemma_stats_ranks(
    s0: Seq<StatsRow>,
    s1: Seq<StatsRow>,
    s2: Seq<StatsRow>,
    s3: Seq<StatsRow>,
    a: bool,
    b: bool,
    c: bool,
)
    requires
        s0 == seq![StatsRow::Banner, StatsRow::StatGrid],
        s1 == s0 + row_if(a, StatsRow::TopTracks),
        s2 == s1 + row_if(b, StatsRow::TopArtists),
        s3 == s2 + row_if(c, StatsRow::TopAlbums),
    ensures
        forall|i: int, j: int| 0 <= i < j < s3.len() ==> stats_rank(#[trigger] s3[i]) < stats_rank(#[trigger] s3[j]),
{
    assert forall|i: int| 0 <= i < s1.len() implies 1 <= stats_rank(#[trigger] s1[i]) <= 2 + (if a { 1int } else { 0 })
        && stats_rank(s1[i]) == i + 1 by {
        if i >= 2 {
            assert(s1[i] == StatsRow::TopTracks);
        }
    }
    assert forall|i: int| 0 <= i < s2.len() implies 1 <= stats_rank(#[trigger] s2[i]) <= 4 && (i < s1.len()
        ==> s2[i] == s1[i]) && (i >= s1.len() ==> s2[i] == StatsRow::TopArtists) by {}
    assert forall|i: int| 0 <= i < s3.len() implies (i < s2.len() ==> s3[i] == s2[i]) && (i >= s2.len() ==> #[trigger] s3[i]
        == StatsRow::TopAlbums) by {}
    assert forall|i: int, j: int| 0 <= i < j < s3.len() implies stats_rank(#[trigger] s3[i]) < stats_rank(
        #[trigger] s3[j],
    ) by {
        if j < s2.len() {
            assert(s3[j] == s2[j] && s3[i] == s2[i]);
            if j < s1.len() {
                assert(s2[j] == s1[j] && s2[i] == s1[i]);
                assert(stats_rank(s1[j]) == j + 1 && stats_rank(s1[i]) == i + 1);
            } else {
                assert(s2[j] == StatsRow::TopArtists);
                assert(s2[i] == s1[i]);
                assert(stats_rank(s1[i]) <= 3);
            }
        } else {
            assert(s3[j] == StatsRow::TopAlbums);
            assert(s3[i] == s2[i]);
            if i < s1.len() {
                assert(s2[i] == s1[i]);
                assert(stats_rank(s1[i]) <= 3);
            } else {
                assert(s2[i] == StatsRow::TopArtists);
            }
        }
    }
}

/// Lists the rows of the stats section.
pub fn stats_rows(total_plays: u64, top_tracks: usize, top_artists: usize, top_albums: usize) -> (r:
    Vec<StatsRow>)
    ensures
        r@ == stats_rows_spec(total_plays, top_tracks, top_artists, top_albums),
{
    let mut r: Vec<StatsRow> = Vec::new();
    if total_plays == 0 {
        r.push(StatsRow::NoStats);
    } else {
        r.push(StatsRow::Banner);
        r.push(StatsRow::StatGrid);
        if top_tracks > 0 {
            r.push(StatsRow::TopTracks);
        }
        if top_artists > 0 {
            r.push(StatsRow::TopArtists);
        }
        if top_albums > 0 {
            r.push(StatsRow::TopAlbums);
        }
    }
    assert(r@ =~= stats_rows_spec(total_plays, top_tracks, top_artists, top_albums));
    r
}

/// The separator between parts of a caption: a middle dot between spaces.
pub open spec fn dot_sep() -> Seq<char> {
    seq![' ', '\u{b7}', ' ']
}

/// Appends the separator between parts of a caption.
fn push_dot_sep(s: &mut String)
    ensures
        final(s)@ == old(s)@ + dot_sep(),
{
    push_char(s, ' ');
    push_char(s, '\u{b7}');
    push_char(s, ' ');
    assert(s@ =~= old(s)@ + dot_sep());
}

/// The caption under the title of the home section: "12 tracks · 3 albums ·
/// 4 artists · 1 playlists".
pub open spec fn library_caption_text(tracks: nat, albums: nat, artists: nat, playlists: nat) -> Seq<
    char,
> {
    decimal(tracks) + " tracks"@ + dot_sep() + decimal(albums) + " albums"@ + dot_sep() + decimal(
        artists,
    ) + " artists"@ + dot_sep() + decimal(playlists) + " playlists"@
}

/// Writes the caption under the title of the home section.
pub fn library_caption(tracks: usize, albums: usize, artists: usize, playlists: usize) -> (r: String)
    ensures
        r@ == library_caption_text(tracks as nat, albums as nat, artists as nat, playlists as nat),
{
    let mut s = String::new();
    push_decimal(&mut s, tracks as u64);
    s.append(" tracks");
    push_dot_sep(&mut s);
    push_decimal(&mut s, albums as u64);
    s.append(" albums");
    push_dot_sep(&mut s);
    push_decimal(&mut s, artists as u64);
    s.append(" artists");
    push_dot_sep(&mut s);
    push_decimal(&mut s, playlists as u64);
    s.append(" playlists");
    assert(s@ =~= library_caption_text(tracks as nat, albums as nat, artists as nat, playlists as nat));
    s
}

/// The line under the listening time: "across 12 tracks · 40 plays", and on
/// the stats section " · 3 skips" after it.
pub open spec fn listening_caption_text(tracks: nat, plays: nat, skips: Option<nat>) -> Seq<char> {
    let base = "across "@ + decimal(tracks) + " tracks"@ + dot_sep() + decimal(plays) + " plays"@;
    match skips {
        Some(k) => base + dot_sep() + decimal(k) + " skips"@,
        None => base,
    }
}

/// Writes the line under the listening time, with the count of skips when
/// one is given.
pub fn listening_caption(tracks: u64, plays: u64, skips: Option<u64>) -> (r: String)
    ensures
        r@ == listening_caption_text(
            tracks as nat,
            plays as nat,
            match skips {
                Some(k) => Some(k as nat),
                None => None,
            },
        ),
{
    let mut s = String::from_str("across ");
    push_decimal(&mut s, tracks);
    s.append(" tracks");
    push_dot_sep(&mut s);
    push_decimal(&mut s, plays);
    s.append(" plays");
    match skips {
        Some(k) => {
            push_dot_sep(&mut s);
            push_decimal(&mut s, k);
            s.append(" skips");
        },
        None => {},
    }
    s
}

/// The label of a count of plays: "7 plays".
pub open spec fn plays_text(n: nat) -> Seq<char> {
    decimal(n) + " plays"@
}

/// Writes the label of a count of plays.
pub fn plays_label(n: u64) -> (r: String)
    ensures
        r@ == plays_text(n as nat),
{
    let mut s = String::new();
    push_decimal(&mut s, n);
    s.append(" plays");
    s
}

/// The label of the number of tracks on a card: "9 Tracks".
pub open spec fn tracks_text(n: nat) -> Seq<char> {
    decimal(n) + " Tracks"@
}

/// Writes the label of the number of tracks on a card.
pub fn tracks_label(n: usize) -> (r: String)
    ensures
        r@ == tracks_text(n as nat),
{
    let mut s = String::new();
    push_decimal(&mut s, n as u64);
    s.append(" Tracks");
    s
}

/// Writes the rank of the row at `index` among the top tracks, counted from
/// one and padded to two digits: "01", "02", … "10".
pub fn rank_label(index: usize) -> (r: String)
    requires
        index < usize::MAX,
    ensures
        r@ == pad2(index as nat + 1),
{
    let mut s = String::new();
    push_pad2(&mut s, index as u64 + 1);
    s
}

/// The date of the first listen, or a dash when there was none.
pub open spec fn first_listen_text(first: Option<u64>) -> Seq<char> {
    match first {
        Some(t) => {
            let (y, m, d) = date_of_days((t / 86400) as int);
            date_text(y, m, d)
        },
        None => seq!['\u{2014}'],
    }
}

/// Writes the date of the first listen, or a dash when there was none.
pub fn first_listen_label(first: Option<u64>) -> (r: String)
    ensures
        r@ == first_listen_text(first),
{
    match first {
        Some(t) => fmt_date(t),
        None => {
            let mut s = String::new();
            push_char(&mut s, '\u{2014}');
            s
        },
    }
}

/// The lines of the banner's pill for the most played artist: its name and
/// its plays, or no line when there is none.
pub fn top_artist_lines(top: Option<(String, u32)>) -> (r: Vec<String>)
    ensures
        match top {
            Some((name, plays)) => r@.len() == 2 && r@[0]@ == name@ && r@[1]@ == plays_text(
                plays as nat,
            ),
            None => r@.len() == 0,
        },
{
    let mut r: Vec<String> = Vec::new();
    match top {
        Some((name, plays)) => {
            r.push(name);
            r.push(plays_label(plays as u64));
        },
        None => {},
    }
    r
}

/// The lines of the banner's pill for the most played track: its title, then
/// its artists and plays ("Artist · 7 plays"), or no line when there is none.
pub fn top_track_lines(top: Option<(String, String, u32)>) -> (r: Vec<String>)
    ensures
        match top {
            Some((title, artist, plays)) => r@.len() == 2 && r@[0]@ == title@ && r@[1]@ == artist@
                + dot_sep() + plays_text(plays as nat),
            None => r@.len() == 0,
        },
{
    let mut r: Vec<String> = Vec::new();
    match top {
        Some((title, artist, plays)) => {
            let mut line = artist;
            push_dot_sep(&mut line);
            push_decimal(&mut line, plays as u64);
            line.append(" plays");
            r.push(title);
            r.push(line);
        },
        None => {},
    }
    r
}

/// Names joined by a comma and a space, as a track's artists are shown.
pub open spec fn joined(names: Seq<Seq<char>>) -> Seq<char>
    decreases names.len(),
{
    if names.len() == 0 {
        Seq::empty()
    } else if names.len() == 1 {
        names[0]
    } else {
        joined(names.drop_last()) + seq![',', ' '] + names.last()
    }
}

/// The texts of a list of strings.
pub open spec fn texts(names: Seq<String>) -> Seq<Seq<char>> {
    names.map_values(|s: String| s@)
}

/// Joins names by a comma and a space.
pub fn join_names(names: &[String]) -> (r: String)
    ensures
        r@ == joined(texts(names@)),
{
    let mut s = String::new();
    let mut i: usize = 0;
    while i < names.len()
        invariant
            i <= names@.len(),
            s@ == joined(texts(names@).take(i as int)),
        decreases names@.len() - i,
    {
        let ghost before = s@;
        if i > 0 {
            push_char(&mut s, ',');
            push_char(&mut s, ' ');
        }
        s.append(names[i].as_str());
        proof {
            let t = texts(names@).take(i as int + 1);
            assert(t.drop_last() =~= texts(names@).take(i as int));
            assert(t.last() == names@[i as int]@);
            if i == 0 {
                assert(s@ =~= joined(t));
            } else {
                assert(s@ =~= before + seq![',', ' '] + names@[i as int]@);
            }
        }
        i = i + 1;
    }
    assert(texts(names@).take(names@.len() as int) =~= texts(names@));
    s
}

} // verus!

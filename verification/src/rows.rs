//! The rows of the library and playlist pages: which headers, grids and track
//! rows they show, in which order, and how tall each row is.

use crate::ids::{PlaylistId, TrackId};
use crate::layout::same_track;
use crate::order::{
    chars_of, insertion_order, is_sorted_order, keys_view, law_sorted_order_exists, law_sorted_order_unique,
    key_before, lemma_lex_refl, lemma_sorted_order_covers, lex_le, sorted_order,
};
use vstd::prelude::*;

verus! {

/// A track as the pages list it: its identifier and its title.
pub struct TrackEntry {
    pub id: TrackId,
    pub title: String,
}

/// The section that a header row introduces.
#[derive(Clone, Copy, PartialEq, Eq, Debug)]
pub enum HeaderKind {
    Playlists,
    Tracks,
    Albums,
}

/// One row of the library page.
pub enum LibraryRow {
    Header(HeaderKind),
    PlaylistGridRow(Vec<PlaylistId>),
    TrackTableHeader,
    TrackRow(usize, TrackId),
    Empty(HeaderKind),
}

/// What a row of the library page shows.
pub enum LibraryRowView {
    Header(HeaderKind),
    PlaylistGridRow(Seq<PlaylistId>),
    TrackTableHeader,
    TrackRow(usize, TrackId),
    Empty(HeaderKind),
}

impl View for LibraryRow {
    type V = LibraryRowView;

    open spec fn view(&self) -> LibraryRowView {
        match self {
            LibraryRow::Header(k) => LibraryRowView::Header(*k),
            LibraryRow::PlaylistGridRow(v) => LibraryRowView::PlaylistGridRow(v@),
            LibraryRow::TrackTableHeader => LibraryRowView::TrackTableHeader,
            LibraryRow::TrackRow(n, id) => LibraryRowView::TrackRow(*n, *id),
            LibraryRow::Empty(k) => LibraryRowView::Empty(*k),
        }
    }
}

/// Height in pixels of a row of the library page.
pub open spec fn library_row_height(r: LibraryRowView) -> u32 {
    match r {
        LibraryRowView::Header(_) => 60,
        LibraryRowView::PlaylistGridRow(_) => 280,
        LibraryRowView::TrackTableHeader => 40,
        LibraryRowView::TrackRow(_, _) => 60,
        LibraryRowView::Empty(_) => 192,
    }
}

/// The playlists split into grid rows of `cols` playlists each, the last row
/// holding what is left; with no column count all playlists share one row.
pub open spec fn grid_chunks(s: Seq<PlaylistId>, cols: nat) -> Seq<Seq<PlaylistId>>
    decreases s.len(),
{
    if s.len() == 0 {
        Seq::empty()
    } else if cols == 0 || s.len() <= cols {
        seq![s]
    } else {
        seq![s.take(cols as int)] + grid_chunks(s.skip(cols as int), cols)
    }
}

/// The views of a list of playlist grid rows.
pub open spec fn chunks_view(v: Seq<Vec<PlaylistId>>) -> Seq<Seq<PlaylistId>> {
    v.map_values(|c: Vec<PlaylistId>| c@)
}

/// Splits the playlists into grid rows of `cols` playlists.
pub fn chunk_playlists(pl: &[PlaylistId], cols: usize) -> (out: Vec<Vec<PlaylistId>>)
    ensures
        chunks_view(out@) == grid_chunks(pl@, cols as nat),
{
    let mut out: Vec<Vec<PlaylistId>> = Vec::new();
    let mut chunk: Vec<PlaylistId> = Vec::new();
    let ghost mut start: int = 0;
    let mut i: usize = 0;
    assert(pl@.skip(0) =~= pl@);
    while i < pl.len()
        invariant
            i <= pl@.len(),
            0 <= start <= i,
            chunk@ =~= pl@.subrange(start, i as int),
            cols > 0 ==> i - start < cols,
            cols == 0 ==> start == 0 && out@.len() == 0,
            grid_chunks(pl@, cols as nat) == chunks_view(out@) + grid_chunks(pl@.skip(start), cols as nat),
        decreases pl@.len() - i,
    {
        chunk.push(pl[i]);
        i = i + 1;
        if chunk.len() == cols {
            proof {
                let rest = pl@.skip(start);
                assert(rest.len() >= cols);
                assert(rest.take(cols as int) =~= chunk@);
                assert(rest.skip(cols as int) =~= pl@.skip(start + cols));
                if rest.len() == cols {
                    assert(rest =~= chunk@);
                    assert(pl@.skip(start + cols).len() == 0);
                }
            }
            let ghost before = out@;
            out.push(chunk);
            proof {
                assert(chunks_view(out@) =~= chunks_view(before).push(out@.last()@));
                start = start + cols;
            }
            chunk = Vec::new();
        }
    }
    if chunk.len() > 0 {
        proof {
            assert(pl@.skip(start) =~= chunk@);
        }
        let ghost before = out@;
        out.push(chunk);
        assert(chunks_view(out@) =~= chunks_view(before).push(out@.last()@));
    } else {
        assert(pl@.skip(start).len() == 0);
    }
    assert(chunks_view(out@) =~= chunks_view(out@) + Seq::<Seq<PlaylistId>>::empty());
    out
}


/// The titles of a list of tracks.
pub open spec fn entry_titles(t: Seq<TrackEntry>) -> Seq<Seq<char>> {
    t.map_values(|e: TrackEntry| e.title@)
}

/// The positions of the titles in the stable order by title.
pub open spec fn title_order(titles: Seq<Seq<char>>) -> Seq<usize> {
    choose|p: Seq<usize>| is_sorted_order(titles, p)
}

/// The identifiers of the tracks, ordered by title; tracks with equal titles
/// keep the order in which they came.
pub open spec fn tracks_by_title(t: Seq<TrackEntry>) -> Seq<TrackId> {
    let p = title_order(entry_titles(t));
    Seq::new(p.len(), |k: int| t[p[k] as int].id)
}

/// Orders the tracks by title, keeping the order of tracks with equal titles.
pub fn order_tracks_by_title(tracks: &[TrackEntry]) -> (ids: Vec<TrackId>)
    ensures
        ids@ == tracks_by_title(tracks@),
        ids@.len() == tracks@.len(),
{
    let mut titles: Vec<Vec<char>> = Vec::new();
    let mut i: usize = 0;
    while i < tracks.len()
        invariant
            i <= tracks@.len(),
            keys_view(titles@) =~= entry_titles(tracks@).take(i as int),
        decreases tracks@.len() - i,
    {
        let t = chars_of(tracks[i].title.as_str());
        let ghost before = titles@;
        titles.push(t);
        assert(keys_view(titles@) =~= keys_view(before).push(tracks@[i as int].title@));
        assert(entry_titles(tracks@).take(i as int + 1) =~= entry_titles(tracks@).take(i as int).push(
            tracks@[i as int].title@,
        ));
        i = i + 1;
    }
    assert(entry_titles(tracks@).take(tracks@.len() as int) =~= entry_titles(tracks@));
    let perm = sorted_order(&titles);
    proof {
        let keys = entry_titles(tracks@);
        assert(is_sorted_order(keys, perm@));
        let q = title_order(keys);
        assert(is_sorted_order(keys, q));
        law_sorted_order_unique(keys, perm@, q);
    }
    let mut ids: Vec<TrackId> = Vec::new();
    let mut k: usize = 0;
    while k < perm.len()
        invariant
            perm@ == title_order(entry_titles(tracks@)),
            perm@.len() == tracks@.len(),
            forall|j: int| 0 <= j < perm@.len() ==> #[trigger] perm@[j] < tracks@.len(),
            k <= perm@.len(),
            ids@ =~= tracks_by_title(tracks@).take(k as int),
        decreases perm@.len() - k,
    {
        ids.push(tracks[perm[k]].id);
        k = k + 1;
    }
    assert(tracks_by_title(tracks@).take(perm@.len() as int) =~= tracks_by_title(tracks@));
    ids
}

/// The views of a list of library rows.
pub open spec fn rows_view(v: Seq<LibraryRow>) -> Seq<LibraryRowView> {
    v.map_values(|r: LibraryRow| r@)
}

/// The heights of a list of library rows.
pub open spec fn library_heights(v: Seq<LibraryRowView>) -> Seq<u32> {
    v.map_values(|r: LibraryRowView| library_row_height(r))
}

/// One track row for each identifier, numbered from one.
pub open spec fn track_rows(ids: Seq<TrackId>) -> Seq<LibraryRowView> {
    Seq::new(ids.len(), |k: int| LibraryRowView::TrackRow((k + 1) as usize, ids[k]))
}

/// The rows of the library page: the playlists header, then the playlists in
/// grid rows of `cols` (or a placeholder when there are none), then the tracks
/// header, then a table header and one row per track in the order of titles
/// (or a placeholder when there are none).
pub open spec fn library_rows(pl: Seq<PlaylistId>, tracks: Seq<TrackEntry>, cols: nat) -> Seq<LibraryRowView> {
    seq![LibraryRowView::Header(HeaderKind::Playlists)] + (if pl.len() == 0 {
        seq![LibraryRowView::Empty(HeaderKind::Playlists)]
    } else {
        grid_chunks(pl, cols).map_values(|c: Seq<PlaylistId>| LibraryRowView::PlaylistGridRow(c))
    }) + seq![LibraryRowView::Header(HeaderKind::Tracks)] + (if tracks.len() == 0 {
        seq![LibraryRowView::Empty(HeaderKind::Tracks)]
    } else {
        seq![LibraryRowView::TrackTableHeader] + track_rows(tracks_by_title(tracks))
    })
}

fn push_row(rows: &mut Vec<LibraryRow>, heights: &mut Vec<u32>, r: LibraryRow)
    requires
        library_heights(rows_view(old(rows)@)) == old(heights)@,
    ensures
        rows_view(final(rows)@) == rows_view(old(rows)@).push(r@),
        final(heights)@ == library_heights(rows_view(final(rows)@)),
{
    let h: u32 = match &r {
        LibraryRow::Header(_) => 60,
        LibraryRow::PlaylistGridRow(_) => 280,
        LibraryRow::TrackTableHeader => 40,
        LibraryRow::TrackRow(_, _) => 60,
        LibraryRow::Empty(_) => 192,
    };
    let ghost r_view = r@;
    rows.push(r);
    heights.push(h);
    assert(rows_view(rows@) =~= rows_view(old(rows)@).push(r_view));
    assert(heights@ =~= library_heights(rows_view(rows@)));
}

/// Lays out the library page: its rows and the height in pixels of each,
/// with `cols` playlists to a grid row.
pub fn build_rows(playlists: &[PlaylistId], tracks: &[TrackEntry], cols: usize) -> (res: (Vec<LibraryRow>, Vec<u32>))
    ensures
        rows_view(res.0@) == library_rows(playlists@, tracks@, cols as nat),
        res.1@ == library_heights(rows_view(res.0@)),
{
    let mut rows: Vec<LibraryRow> = Vec::new();
    let mut heights: Vec<u32> = Vec::new();
    assert(rows_view(rows@) =~= Seq::<LibraryRowView>::empty());
    assert(heights@ =~= library_heights(rows_view(rows@)));
    push_row(&mut rows, &mut heights, LibraryRow::Header(HeaderKind::Playlists));
    let ghost part1 = rows_view(rows@);
    if playlists.len() == 0 {
        push_row(&mut rows, &mut heights, LibraryRow::Empty(HeaderKind::Playlists));
    } else {
        let mut chunks = chunk_playlists(playlists, cols);
        let ghost cv = chunks_view(chunks@);
        let ghost grid = cv.map_values(|c: Seq<PlaylistId>| LibraryRowView::PlaylistGridRow(c));
        let n = chunks.len();
        let mut j: usize = 0;
        while j < n
            invariant
                n == cv.len(),
                grid == cv.map_values(|c: Seq<PlaylistId>| LibraryRowView::PlaylistGridRow(c)),
                j <= n,
                chunks@.len() == n - j,
                forall|q: int| 0 <= q < n - j ==> #[trigger] chunks@[q]@ == cv[q + j],
                rows_view(rows@) =~= part1 + grid.take(j as int),
                heights@ == library_heights(rows_view(rows@)),
            decreases n - j,
        {
            let ghost before = chunks@;
            let c = chunks.remove(0);
            assert(c@ == cv[j as int]);
            assert(forall|q: int| 0 <= q < n - j - 1 ==> #[trigger] chunks@[q] == before[q + 1]);
            push_row(&mut rows, &mut heights, LibraryRow::PlaylistGridRow(c));
            assert(grid[j as int] == LibraryRowView::PlaylistGridRow(cv[j as int]));
            assert(grid.take(j as int + 1) =~= grid.take(j as int).push(grid[j as int]));
            j = j + 1;
        }
        assert(grid.take(n as int) =~= grid);
    }
    let ghost part2 = rows_view(rows@);
    push_row(&mut rows, &mut heights, LibraryRow::Header(HeaderKind::Tracks));
    let ghost part3 = rows_view(rows@);
    if tracks.len() == 0 {
        push_row(&mut rows, &mut heights, LibraryRow::Empty(HeaderKind::Tracks));
    } else {
        push_row(&mut rows, &mut heights, LibraryRow::TrackTableHeader);
        let ghost part4 = rows_view(rows@);
        let ids = order_tracks_by_title(tracks);
        let mut k: usize = 0;
        while k < ids.len()
            invariant
                k <= ids@.len(),
                ids@ == tracks_by_title(tracks@),
                rows_view(rows@) =~= part4 + track_rows(ids@).take(k as int),
                heights@ == library_heights(rows_view(rows@)),
            decreases ids@.len() - k,
        {
            push_row(&mut rows, &mut heights, LibraryRow::TrackRow(k + 1, ids[k]));
            k = k + 1;
        }
        assert(track_rows(ids@).take(ids@.len() as int) =~= track_rows(ids@));
    }
    assert(rows_view(rows@) =~= library_rows(playlists@, tracks@, cols as nat));
    (rows, heights)
}


/// One row of the playlist page.
#[derive(Clone, Copy, PartialEq, Eq, Debug)]
pub enum PlaylistsRow {
    Header,
    TrackTableHeader,
    TrackRow(usize, TrackId),
}

/// The playlist shown on the playlist page: how many track identifiers it
/// lists, and those of its tracks that the library holds, in playlist order.
pub struct SelectedPlaylist {
    pub listed: usize,
    pub found: Vec<TrackEntry>,
}

/// The first entry of `library` for the track `id`, if the library holds it.
pub open spec fn entry_of(library: Seq<TrackEntry>, id: TrackId) -> Option<TrackEntry>
    decreases library.len(),
{
    if library.len() == 0 {
        None
    } else if library[0].id.0@ == id.0@ {
        Some(library[0])
    } else {
        entry_of(library.drop_first(), id)
    }
}

/// The library's entries for the tracks a playlist lists, in playlist order:
/// a track listed twice comes twice, and a track the library does not hold is
/// left out.
pub open spec fn found_entries(listed: Seq<TrackId>, library: Seq<TrackEntry>) -> Seq<TrackEntry>
    decreases listed.len(),
{
    if listed.len() == 0 {
        Seq::empty()
    } else {
        let rest = found_entries(listed.drop_last(), library);
        match entry_of(library, listed.last()) {
            Some(e) => rest.push(e),
            None => rest,
        }
    }
}

/// Looks up the library's entry for the track `id`.
fn find_entry(library: &[TrackEntry], id: &TrackId) -> (r: Option<TrackEntry>)
    ensures
        r == entry_of(library@, *id),
{
    let mut k: usize = 0;
    assert(library@.skip(0) =~= library@);
    while k < library.len()
        invariant
            k <= library@.len(),
            entry_of(library@, *id) == entry_of(library@.skip(k as int), *id),
        decreases library@.len() - k,
    {
        assert(library@.skip(k as int).drop_first() =~= library@.skip(k as int + 1));
        if same_track(&library[k].id, id) {
            return Some(TrackEntry { id: library[k].id, title: library[k].title.clone() });
        }
        k = k + 1;
    }
    None
}

/// Gathers the playlist to show from the track identifiers it lists and the
/// library's tracks: how many it lists, and the entries of those the library
/// holds, in playlist order.
pub fn select_playlist(listed: &[TrackId], library: &[TrackEntry]) -> (p: SelectedPlaylist)
    ensures
        p.listed == listed@.len(),
        p.found@ == found_entries(listed@, library@),
{
    let mut found: Vec<TrackEntry> = Vec::new();
    let mut i: usize = 0;
    while i < listed.len()
        invariant
            i <= listed@.len(),
            found@ == found_entries(listed@.take(i as int), library@),
        decreases listed@.len() - i,
    {
        assert(listed@.take(i as int + 1).drop_last() =~= listed@.take(i as int));
        match find_entry(library, &listed[i]) {
            Some(e) => found.push(e),
            None => {},
        }
        i = i + 1;
    }
    assert(listed@.take(listed@.len() as int) =~= listed@);
    SelectedPlaylist { listed: listed.len(), found }
}

/// Height in pixels of a row of the playlist page.
pub open spec fn playlist_row_height(r: PlaylistsRow) -> u32 {
    match r {
        PlaylistsRow::Header => 240,
        PlaylistsRow::TrackTableHeader => 40,
        PlaylistsRow::TrackRow(_, _) => 60,
    }
}

/// One playlist track row for each identifier, numbered from one.
pub open spec fn playlist_track_rows(ids: Seq<TrackId>) -> Seq<PlaylistsRow> {
    Seq::new(ids.len(), |k: int| PlaylistsRow::TrackRow((k + 1) as usize, ids[k]))
}

/// The rows of the playlist page: the header, then, when a playlist that lists
/// tracks is selected, a table header and one row per track that the library
/// holds, in the order of titles.
pub open spec fn playlist_rows(selected: Option<(usize, Seq<TrackEntry>)>) -> Seq<PlaylistsRow> {
    match selected {
        Some((listed, found)) if listed > 0 => seq![PlaylistsRow::Header, PlaylistsRow::TrackTableHeader]
            + playlist_track_rows(tracks_by_title(found)),
        _ => seq![PlaylistsRow::Header],
    }
}

/// Lays out the playlist page: its rows and the height in pixels of each.
pub fn build_playlist_rows(selected: Option<&SelectedPlaylist>) -> (res: (Vec<PlaylistsRow>, Vec<u32>))
    ensures
        res.0@ == playlist_rows(
            match selected {
                Some(p) => Some((p.listed, p.found@)),
                None => None,
            },
        ),
        res.1@ == res.0@.map_values(|r: PlaylistsRow| playlist_row_height(r)),
{
    let mut rows: Vec<PlaylistsRow> = Vec::new();
    let mut heights: Vec<u32> = Vec::new();
    rows.push(PlaylistsRow::Header);
    heights.push(240);
    match selected {
        Some(p) => {
            if p.listed > 0 {
                rows.push(PlaylistsRow::TrackTableHeader);
                heights.push(40);
                let ids = order_tracks_by_title(p.found.as_slice());
                let mut k: usize = 0;
                while k < ids.len()
                    invariant
                        k <= ids@.len(),
                        ids@ == tracks_by_title(p.found@),
                        rows@ =~= seq![PlaylistsRow::Header, PlaylistsRow::TrackTableHeader]
                            + playlist_track_rows(ids@).take(k as int),
                        heights@ =~= rows@.map_values(|r: PlaylistsRow| playlist_row_height(r)),
                    decreases ids@.len() - k,
                {
                    rows.push(PlaylistsRow::TrackRow(k + 1, ids[k]));
                    heights.push(60);
                    k = k + 1;
                }
                assert(playlist_track_rows(ids@).take(ids@.len() as int) =~= playlist_track_rows(ids@));
            }
        },
        None => {},
    }
    assert(heights@ =~= rows@.map_values(|r: PlaylistsRow| playlist_row_height(r)));
    (rows, heights)
}


/// How many albums, artists or playlists a row of the home page shows.
pub const ROW_COUNT: usize = 12;

/// The lower-case form of a string, as Rust's `str::to_lowercase` gives it.
pub uninterp spec fn lowercase(s: Seq<char>) -> Seq<char>;

/// Calls `str::to_lowercase`. Its result is taken to depend on the string
/// alone; what the Unicode lower-case mapping is, is not stated here.
#[verifier::external_body]
fn to_lowercase(s: &str) -> (r: String)
    ensures
        r@ == lowercase(s@),
{
    s.to_lowercase()
}

/// The lower-case names of a list of named entries.
pub open spec fn lower_names<T>(entries: Seq<(T, String)>) -> Seq<Seq<char>> {
    entries.map_values(|e: (T, String)| lowercase(e.1@))
}

/// The entries ordered by lower-case name, entries whose lower-case names are
/// equal keeping the order in which they came.
pub open spec fn by_name<T>(entries: Seq<(T, String)>) -> Seq<T> {
    let p = title_order(lower_names(entries));
    Seq::new(p.len(), |k: int| entries[p[k] as int].0)
}

/// The sort keys of a list of keyed entries.
pub open spec fn entry_keys_of<T>(entries: Seq<(T, String)>) -> Seq<Seq<char>> {
    entries.map_values(|e: (T, String)| e.1@)
}

/// The entries ordered by their keys, entries with equal keys keeping the
/// order in which they came.
pub open spec fn by_key<T>(entries: Seq<(T, String)>) -> Seq<T> {
    let p = title_order(entry_keys_of(entries));
    Seq::new(p.len(), |k: int| entries[p[k] as int].0)
}

/// `count`, or the length of `s` when it is shorter.
pub open spec fn capped<T>(s: Seq<T>, count: usize) -> int {
    if count < s.len() {
        count as int
    } else {
        s.len() as int
    }
}

/// The first `count` entries in the order of their keys (the names as they
/// are compared), or all of them when there are fewer.
pub fn first_by_key<T: Copy>(entries: &[(T, String)], count: usize) -> (r: Vec<T>)
    ensures
        r@ == by_key(entries@).take(capped(entries@, count)),
{
    let mut keys: Vec<Vec<char>> = Vec::new();
    let mut i: usize = 0;
    while i < entries.len()
        invariant
            i <= entries@.len(),
            keys_view(keys@) =~= entry_keys_of(entries@).take(i as int),
        decreases entries@.len() - i,
    {
        let t = chars_of(entries[i].1.as_str());
        let ghost before = keys@;
        keys.push(t);
        assert(keys_view(keys@) =~= keys_view(before).push(entries@[i as int].1@));
        assert(entry_keys_of(entries@).take(i as int + 1) =~= entry_keys_of(entries@).take(i as int).push(
            entries@[i as int].1@,
        ));
        i = i + 1;
    }
    assert(entry_keys_of(entries@).take(entries@.len() as int) =~= entry_keys_of(entries@));
    let perm = sorted_order(&keys);
    proof {
        let ks = entry_keys_of(entries@);
        let q = title_order(ks);
        assert(is_sorted_order(ks, q));
        law_sorted_order_unique(ks, perm@, q);
    }
    let n = if count < entries.len() {
        count
    } else {
        entries.len()
    };
    let mut r: Vec<T> = Vec::new();
    let mut k: usize = 0;
    while k < n
        invariant
            perm@ == title_order(entry_keys_of(entries@)),
            perm@.len() == entries@.len(),
            forall|j: int| 0 <= j < perm@.len() ==> #[trigger] perm@[j] < entries@.len(),
            n <= entries@.len(),
            k <= n,
            r@ =~= by_key(entries@).take(k as int),
        decreases n - k,
    {
        r.push(entries[perm[k]].0);
        k = k + 1;
    }
    r
}

/// The first `count` entries in the order of their lower-case names, or all of
/// them when there are fewer.
pub fn first_by_name<T: Copy>(entries: &[(T, String)], count: usize) -> (r: Vec<T>)
    ensures
        r@ == by_name(entries@).take(capped(entries@, count)),
{
    let mut lowered: Vec<(T, String)> = Vec::new();
    let mut i: usize = 0;
    while i < entries.len()
        invariant
            i <= entries@.len(),
            lowered@.len() == i,
            forall|j: int| 0 <= j < i ==> (#[trigger] lowered@[j]).0 == entries@[j].0 && lowered@[j].1@ == lowercase(
                entries@[j].1@,
            ),
        decreases entries@.len() - i,
    {
        let lower = to_lowercase(entries[i].1.as_str());
        lowered.push((entries[i].0, lower));
        i = i + 1;
    }
    proof {
        let ks = lower_names(entries@);
        assert(entry_keys_of(lowered@) =~= ks);
        law_sorted_order_exists(ks);
        assert(is_sorted_order(ks, insertion_order(ks, ks.len())));
        let q = title_order(ks);
        assert(is_sorted_order(ks, q));
        assert forall|k: int| 0 <= k < q.len() implies #[trigger] by_key(lowered@)[k] == by_name(entries@)[k] by {
            assert(q[k] < ks.len());
        }
        assert(by_key(lowered@) =~= by_name(entries@));
    }
    first_by_key(lowered.as_slice(), count)
}

/// Position `v` appears in `p`.
pub open spec fn lists(p: Seq<usize>, v: int) -> bool {
    exists|k: int| 0 <= k < p.len() && p[k] == v
}

/// The library lists its tracks in the order of titles, each track once:
/// one row per track, every track in some row, and titles never decreasing
/// from one row to the next.
pub proof fn law_tracks_by_title(t: Seq<TrackEntry>)
    requires
        t.len() <= usize::MAX,
    ensures
        tracks_by_title(t).len() == t.len(),
        forall|v: int| 0 <= v < t.len() ==> #[trigger] lists(title_order(entry_titles(t)), v),
        forall|k: int, l: int|
            0 <= k < l < t.len() ==> #[trigger] title_order(entry_titles(t))[k] != #[trigger] title_order(entry_titles(t))[l],
        forall|k: int, l: int|
            0 <= k < l < t.len() ==> lex_le(
                t[#[trigger] title_order(entry_titles(t))[k] as int].title@,
                t[#[trigger] title_order(entry_titles(t))[l] as int].title@,
            ),
        forall|k: int| 0 <= k < t.len() ==> #[trigger] tracks_by_title(t)[k] == t[title_order(entry_titles(t))[k] as int].id,
{
    let keys = entry_titles(t);
    law_sorted_order_exists(keys);
    let w = insertion_order(keys, keys.len());
    let p = title_order(keys);
    assert(is_sorted_order(keys, w));
    assert(is_sorted_order(keys, p));
    assert forall|v: int| 0 <= v < t.len() implies #[trigger] lists(p, v) by {
        lemma_sorted_order_covers(keys, p, v);
    }
    assert forall|k: int, l: int| 0 <= k < l < t.len() implies #[trigger] p[k] != #[trigger] p[l] by {
        assert(key_before(keys, p[k] as int, p[l] as int));
        lemma_lex_refl(keys[p[k] as int]);
    }
    assert forall|k: int, l: int| 0 <= k < l < t.len() implies lex_le(
        t[#[trigger] p[k] as int].title@,
        t[#[trigger] p[l] as int].title@,
    ) by {
        assert(keys[p[k] as int] == t[p[k] as int].title@);
        assert(keys[p[l] as int] == t[p[l] as int].title@);
    }
}

} // verus!

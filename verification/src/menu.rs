//! The menus that offer a YouTube link in several qualities.
use vstd::prelude::*;

use crate::kind::DownloadKind;
use crate::outside::{is_random_id, random_id};
use crate::text::{concat2, has_prefix, same_text, strip_prefix};

verus! {

/// How long a menu can be used, in nanoseconds.
pub const DOWNLOAD_MENU_TTL: u64 = 30 * 60 * 1_000_000_000;

/// How many menus are kept at most.
pub const MAX_DOWNLOAD_MENUS: usize = 1_024;

// Choices

/// The kind that the data of a pressed button asks for, with the menu that it belongs to.
pub open spec fn callback_choice(data: Seq<char>) -> Option<(DownloadKind, Seq<char>)> {
    if has_prefix(data, "ytv480:"@) {
        Some((DownloadKind::YouTubeVideo480, data.skip("ytv480:"@.len() as int)))
    } else if has_prefix(data, "ytv720:"@) {
        Some((DownloadKind::YouTubeVideo720, data.skip("ytv720:"@.len() as int)))
    } else if has_prefix(data, "ytv1024:"@) {
        Some((DownloadKind::YouTubeVideo1024, data.skip("ytv1024:"@.len() as int)))
    } else if has_prefix(data, "ytv1440:"@) {
        Some((DownloadKind::YouTubeVideo1440, data.skip("ytv1440:"@.len() as int)))
    } else if has_prefix(data, "ytv2160:"@) {
        Some((DownloadKind::YouTubeVideo2160, data.skip("ytv2160:"@.len() as int)))
    } else if has_prefix(data, "ytv:"@) {
        Some((DownloadKind::YouTubeVideo1024, data.skip("ytv:"@.len() as int)))
    } else if has_prefix(data, "yta:"@) {
        Some((DownloadKind::YouTubeAudio, data.skip("yta:"@.len() as int)))
    } else {
        None
    }
}

/// Reads the data of a pressed button.
pub fn parse_youtube_download_callback<'a>(data: &'a str) -> (r: Option<(DownloadKind, &'a str)>)
    ensures
        match r {
            Some((kind, id)) => callback_choice(data@) == Some((kind, id@)),
            None => callback_choice(data@) is None,
        },
{
    if let Some(id) = strip_prefix(data, "ytv480:") {
        return Some((DownloadKind::YouTubeVideo480, id));
    }
    if let Some(id) = strip_prefix(data, "ytv720:") {
        return Some((DownloadKind::YouTubeVideo720, id));
    }
    if let Some(id) = strip_prefix(data, "ytv1024:") {
        return Some((DownloadKind::YouTubeVideo1024, id));
    }
    if let Some(id) = strip_prefix(data, "ytv1440:") {
        return Some((DownloadKind::YouTubeVideo1440, id));
    }
    if let Some(id) = strip_prefix(data, "ytv2160:") {
        return Some((DownloadKind::YouTubeVideo2160, id));
    }
    if let Some(id) = strip_prefix(data, "ytv:") {
        return Some((DownloadKind::YouTubeVideo1024, id));
    }
    if let Some(id) = strip_prefix(data, "yta:") {
        return Some((DownloadKind::YouTubeAudio, id));
    }
    None
}

/// The tag of the button that asks for `kind`; empty where no button does.
pub open spec fn button_tag(kind: DownloadKind) -> Seq<char> {
    match kind {
        DownloadKind::YouTubeVideo480 => "ytv480:"@,
        DownloadKind::YouTubeVideo720 => "ytv720:"@,
        DownloadKind::YouTubeVideo1024 => "ytv1024:"@,
        DownloadKind::YouTubeVideo1440 => "ytv1440:"@,
        DownloadKind::YouTubeVideo2160 => "ytv2160:"@,
        DownloadKind::YouTubeAudio => "yta:"@,
        _ => Seq::empty(),
    }
}

/// A button of a menu: what it says and what is sent when it is pressed.
#[derive(Debug)]
pub struct MenuButton {
    pub label: &'static str,
    pub data: String,
}

impl DeepView for MenuButton {
    type V = (Seq<char>, Seq<char>);

    open spec fn deep_view(&self) -> (Seq<char>, Seq<char>) {
        (self.label@, self.data@)
    }
}

/// A button that asks for `kind` in the menu `id`.
pub open spec fn button(label: Seq<char>, kind: DownloadKind, id: Seq<char>) -> (
    Seq<char>,
    Seq<char>,
) {
    (label, button_tag(kind) + id)
}

/// The rows of buttons of the menu `id`.
pub open spec fn menu_rows(id: Seq<char>) -> Seq<Seq<(Seq<char>, Seq<char>)>> {
    seq![
        seq![
            button("480p"@, DownloadKind::YouTubeVideo480, id),
            button("720p"@, DownloadKind::YouTubeVideo720, id),
        ],
        seq![
            button("1024p"@, DownloadKind::YouTubeVideo1024, id),
            button("4K"@, DownloadKind::YouTubeVideo2160, id),
        ],
        seq![button("Audio"@, DownloadKind::YouTubeAudio, id)],
    ]
}

/// What a menu asks the user.
pub const MENU_PROMPT: &'static str = "Choose quality or audio:";

/// The rows of buttons of the menu `id`.
pub fn youtube_menu(id: &str) -> (r: Vec<Vec<MenuButton>>)
    ensures
        r.deep_view() == menu_rows(id@),
{
    let mut low: Vec<MenuButton> = Vec::new();
    low.push(MenuButton { label: "480p", data: concat2("ytv480:", id) });
    low.push(MenuButton { label: "720p", data: concat2("ytv720:", id) });
    let mut high: Vec<MenuButton> = Vec::new();
    high.push(MenuButton { label: "1024p", data: concat2("ytv1024:", id) });
    high.push(MenuButton { label: "4K", data: concat2("ytv2160:", id) });
    let mut audio: Vec<MenuButton> = Vec::new();
    audio.push(MenuButton { label: "Audio", data: concat2("yta:", id) });
    assert(low.deep_view() =~= menu_rows(id@)[0]);
    assert(high.deep_view() =~= menu_rows(id@)[1]);
    assert(audio.deep_view() =~= menu_rows(id@)[2]);
    let mut rows: Vec<Vec<MenuButton>> = Vec::new();
    rows.push(low);
    rows.push(high);
    rows.push(audio);
    assert(rows.deep_view() =~= menu_rows(id@));
    rows
}

/// Whatever the menu, the data of a button is read back as the kind and the menu of the button.
pub proof fn law_choice_round_trip(kind: DownloadKind, id: Seq<char>)
    requires
        button_tag(kind).len() > 0,
    ensures
        callback_choice(button_tag(kind) + id) == Some((kind, id)),
{
    reveal_strlit("ytv480:");
    reveal_strlit("ytv720:");
    reveal_strlit("ytv1024:");
    reveal_strlit("ytv1440:");
    reveal_strlit("ytv2160:");
    reveal_strlit("ytv:");
    reveal_strlit("yta:");
    let tag = button_tag(kind);
    let data = tag + id;
    assert(data.take(tag.len() as int) =~= tag);
    assert(data.skip(tag.len() as int) =~= id);
    assert forall|other: Seq<char>| #[trigger] has_prefix(data, other) implies forall|i: int|
        0 <= i < other.len() ==> data[i] == other[i] by {
        assert forall|i: int| 0 <= i < other.len() implies data[i] == other[i] by {
            assert(data.take(other.len() as int)[i] == data[i]);
        }
    }
    assert(forall|i: int| 0 <= i < tag.len() ==> data[i] == tag[i]);
    assert(data[3] == tag[3]);
    assert("ytv480:"@[3] == '4' && "ytv720:"@[3] == '7' && "ytv1024:"@[3] == '1' && "ytv1440:"@[3]
        == '1' && "ytv2160:"@[3] == '2' && "ytv:"@[3] == ':' && "yta:"@[2] == 'a');
    assert("ytv1024:"@[4] == '0' && "ytv1440:"@[4] == '4');
}

/// Every button of a menu is read back as a kind on YouTube, for that menu.
pub proof fn law_menu_buttons_are_choices(id: Seq<char>, row: int, column: int)
    requires
        0 <= row < menu_rows(id).len(),
        0 <= column < menu_rows(id)[row].len(),
    ensures
        callback_choice(menu_rows(id)[row][column].1) matches Some((kind, menu)) && menu == id
            && kind.on_youtube(),
{
    reveal_strlit("ytv480:");
    reveal_strlit("ytv720:");
    reveal_strlit("ytv1024:");
    reveal_strlit("ytv2160:");
    reveal_strlit("yta:");
    law_choice_round_trip(DownloadKind::YouTubeVideo480, id);
    law_choice_round_trip(DownloadKind::YouTubeVideo720, id);
    law_choice_round_trip(DownloadKind::YouTubeVideo1024, id);
    law_choice_round_trip(DownloadKind::YouTubeVideo2160, id);
    law_choice_round_trip(DownloadKind::YouTubeAudio, id);
}

// The store

/// What is kept of a menu: the link that it is for and when it was shown, in nanoseconds on a
/// clock that does not run backwards.
#[derive(Debug)]
pub struct DownloadMenu {
    pub url: String,
    pub created_at: u64,
}

/// A menu under its identifier.
#[derive(Debug)]
struct MenuEntry {
    id: String,
    menu: DownloadMenu,
}

/// The menus that were shown and not used yet, by their identifiers.
#[derive(Debug)]
pub struct DownloadMenus {
    entries: Vec<MenuEntry>,
}

spec fn entry_ids(entries: Seq<MenuEntry>) -> Seq<Seq<char>> {
    entries.map_values(|entry: MenuEntry| entry.id@)
}

spec fn entry_map(entries: Seq<MenuEntry>) -> Map<Seq<char>, (Seq<char>, u64)> {
    Map::new(
        |id: Seq<char>| entry_ids(entries).contains(id),
        |id: Seq<char>|
            {
                let menu = entries[entry_ids(entries).index_of(id)].menu;
                (menu.url@, menu.created_at)
            },
    )
}

impl View for DownloadMenus {
    type V = Map<Seq<char>, (Seq<char>, u64)>;

    closed spec fn view(&self) -> Map<Seq<char>, (Seq<char>, u64)> {
        entry_map(self.entries@)
    }
}

/// Whether a menu shown at `created_at` can still be used at `now`.
pub open spec fn is_fresh(created_at: u64, now: u64) -> bool {
    now < created_at || now - created_at < DOWNLOAD_MENU_TTL
}

/// The menus that can still be used at `now`.
pub open spec fn fresh_menus(menus: Map<Seq<char>, (Seq<char>, u64)>, now: u64) -> Map<
    Seq<char>,
    (Seq<char>, u64),
> {
    Map::new(
        |id: Seq<char>| menus.contains_key(id) && is_fresh(menus[id].1, now),
        |id: Seq<char>| menus[id],
    )
}

/// Whether `kept` is what stays of `menus` when the oldest leave until no more than `limit` are
/// there. Among menus of one age, any may leave.
pub open spec fn keeps_newest(
    menus: Map<Seq<char>, (Seq<char>, u64)>,
    kept: Map<Seq<char>, (Seq<char>, u64)>,
    limit: nat,
) -> bool {
    &&& kept.dom().finite()
    &&& kept.submap_of(menus)
    &&& kept.len() == if menus.len() < limit {
        menus.len()
    } else {
        limit
    }
    &&& forall|gone: Seq<char>, stays: Seq<char>|
        menus.contains_key(gone) && !kept.contains_key(gone) && kept.contains_key(stays) ==> (
        #[trigger] menus[gone]).1 <= (#[trigger] kept[stays]).1
}

proof fn lemma_entry(entries: Seq<MenuEntry>, i: int)
    requires
        entry_ids(entries).no_duplicates(),
        0 <= i < entries.len(),
    ensures
        entry_map(entries).contains_key(entries[i].id@),
        entry_map(entries)[entries[i].id@] == (entries[i].menu.url@, entries[i].menu.created_at),
{
    let ids = entry_ids(entries);
    assert(ids[i] == entries[i].id@);
    assert(ids.contains(ids[i]));
    assert(ids.index_of(ids[i]) == i);
}

proof fn lemma_entry_of(entries: Seq<MenuEntry>, id: Seq<char>) -> (i: int)
    requires
        entry_ids(entries).no_duplicates(),
        entry_map(entries).contains_key(id),
    ensures
        0 <= i < entries.len(),
        entries[i].id@ == id,
        entry_map(entries)[id] == (entries[i].menu.url@, entries[i].menu.created_at),
{
    let i = entry_ids(entries).index_of(id);
    lemma_entry(entries, i);
    i
}

proof fn lemma_entry_count(entries: Seq<MenuEntry>)
    requires
        entry_ids(entries).no_duplicates(),
    ensures
        entry_map(entries).dom().finite(),
        entry_map(entries).len() == entries.len(),
{
    let ids = entry_ids(entries);
    assert(entry_map(entries).dom() =~= ids.to_set());
    ids.unique_seq_to_set();
}

proof fn lemma_entry_removed(entries: Seq<MenuEntry>, i: int)
    requires
        entry_ids(entries).no_duplicates(),
        0 <= i < entries.len(),
    ensures
        entry_ids(entries.remove(i)).no_duplicates(),
        entry_map(entries.remove(i)) == entry_map(entries).remove(entries[i].id@),
{
    let rest = entries.remove(i);
    let ids = entry_ids(entries);
    let rest_ids = entry_ids(rest);
    assert forall|j: int| 0 <= j < rest.len() implies #[trigger] rest_ids[j] == ids[if j < i {
        j
    } else {
        j + 1
    }] by {}
    let before = entry_map(entries);
    let after = entry_map(rest);
    assert forall|id: Seq<char>| #[trigger] after.contains_key(id) <==> before.remove(
        entries[i].id@,
    ).contains_key(id) by {
        if after.contains_key(id) {
            let j = lemma_entry_of(rest, id);
            let k = if j < i {
                j
            } else {
                j + 1
            };
            assert(rest_ids[j] == ids[k]);
            lemma_entry(entries, k);
            assert(ids[i] != ids[k]);
        }
        if before.remove(entries[i].id@).contains_key(id) {
            let k = lemma_entry_of(entries, id);
            assert(k != i);
            let j = if k < i {
                k
            } else {
                k - 1
            };
            assert(rest[j] == entries[k]);
            lemma_entry(rest, j);
        }
    }
    assert forall|id: Seq<char>| #[trigger] after.contains_key(id) implies after[id]
        == before.remove(entries[i].id@)[id] by {
        let j = lemma_entry_of(rest, id);
        let k = if j < i {
            j
        } else {
            j + 1
        };
        assert(rest[j] == entries[k]);
        lemma_entry(entries, k);
    }
    assert(after =~= before.remove(entries[i].id@));
}

proof fn lemma_entry_pushed(entries: Seq<MenuEntry>, entry: MenuEntry)
    requires
        entry_ids(entries).no_duplicates(),
        !entry_map(entries).contains_key(entry.id@),
    ensures
        entry_ids(entries.push(entry)).no_duplicates(),
        entry_map(entries.push(entry)) == entry_map(entries).insert(
            entry.id@,
            (entry.menu.url@, entry.menu.created_at),
        ),
{
    let all = entries.push(entry);
    let ids = entry_ids(entries);
    let all_ids = entry_ids(all);
    assert(all_ids =~= ids.push(entry.id@));
    assert(!ids.contains(entry.id@));
    assert(all_ids.no_duplicates());
    let before = entry_map(entries);
    let after = entry_map(all);
    lemma_entry(all, entries.len() as int);
    assert forall|id: Seq<char>| #[trigger]
        after.contains_key(id) <==> before.contains_key(id) || id == entry.id@ by {
        if after.contains_key(id) {
            let j = lemma_entry_of(all, id);
            if j < entries.len() {
                lemma_entry(entries, j);
            }
        }
        if before.contains_key(id) {
            let j = lemma_entry_of(entries, id);
            lemma_entry(all, j);
        }
    }
    assert forall|id: Seq<char>| #[trigger] after.contains_key(id) && id != entry.id@ implies after[id]
        == before[id] by {
        let j = lemma_entry_of(all, id);
        lemma_entry(entries, j);
    }
    assert(after =~= before.insert(entry.id@, (entry.menu.url@, entry.menu.created_at)));
}

impl DownloadMenus {
    /// No identifier occurs twice.
    pub closed spec fn wf(&self) -> bool {
        entry_ids(self.entries@).no_duplicates()
    }

    /// No menus.
    pub fn new() -> (r: DownloadMenus)
        ensures
            r.wf(),
            r@ == Map::<Seq<char>, (Seq<char>, u64)>::empty(),
    {
        let r = DownloadMenus { entries: Vec::new() };
        assert(r@ =~= Map::<Seq<char>, (Seq<char>, u64)>::empty());
        r
    }

    /// How many menus are kept.
    pub fn len(&self) -> (r: usize)
        requires
            self.wf(),
        ensures
            r == self@.len(),
            self@.dom().finite(),
    {
        proof {
            lemma_entry_count(self.entries@);
        }
        self.entries.len()
    }

    /// Whether no menu is kept.
    pub fn is_empty(&self) -> (r: bool)
        requires
            self.wf(),
        ensures
            r == (self@ == Map::<Seq<char>, (Seq<char>, u64)>::empty()),
    {
        let empty = self.entries.len() == 0;
        proof {
            if empty {
                assert(self@ =~= Map::<Seq<char>, (Seq<char>, u64)>::empty());
            } else {
                lemma_entry(self.entries@, 0);
            }
        }
        empty
    }

    fn position(&self, id: &str) -> (r: Option<usize>)
        requires
            self.wf(),
        ensures
            match r {
                Some(i) => i < self.entries@.len() && self.entries@[i as int].id@ == id@
                    && self@.contains_key(id@),
                None => !self@.contains_key(id@),
            },
    {
        let mut i: usize = 0;
        while i < self.entries.len()
            invariant
                self.wf(),
                i <= self.entries@.len(),
                forall|j: int| 0 <= j < i ==> self.entries@[j].id@ != id@,
            decreases self.entries@.len() - i,
        {
            if same_text(self.entries[i].id.as_str(), id) {
                proof {
                    lemma_entry(self.entries@, i as int);
                }
                return Some(i);
            }
            i = i + 1;
        }
        proof {
            if self@.contains_key(id@) {
                let j = lemma_entry_of(self.entries@, id@);
            }
        }
        None
    }

    /// Whether the menu `id` is kept.
    pub fn contains_key(&self, id: &str) -> (r: bool)
        requires
            self.wf(),
        ensures
            r == self@.contains_key(id@),
    {
        self.position(id).is_some()
    }

    /// Takes the menu `id` out.
    pub fn remove(&mut self, id: &str) -> (r: Option<DownloadMenu>)
        requires
            old(self).wf(),
        ensures
            final(self).wf(),
            final(self)@ == old(self)@.remove(id@),
            match r {
                Some(menu) => old(self)@.contains_key(id@) && old(self)@[id@] == (
                    menu.url@,
                    menu.created_at,
                ),
                None => !old(self)@.contains_key(id@),
            },
    {
        match self.position(id) {
            Some(i) => {
                proof {
                    lemma_entry(self.entries@, i as int);
                    lemma_entry_removed(self.entries@, i as int);
                }
                let entry = self.entries.remove(i);
                Some(entry.menu)
            },
            None => {
                assert(self@.remove(id@) =~= self@);
                None
            },
        }
    }

    /// Keeps `menu` under `id`, in place of what was there.
    pub fn insert(&mut self, id: String, menu: DownloadMenu)
        requires
            old(self).wf(),
        ensures
            final(self).wf(),
            final(self)@ == old(self)@.insert(id@, (menu.url@, menu.created_at)),
    {
        self.remove(id.as_str());
        let entry = MenuEntry { id, menu };
        proof {
            lemma_entry_pushed(self.entries@, entry);
        }
        self.entries.push(entry);
        assert(self@ =~= old(self)@.insert(entry.id@, (entry.menu.url@, entry.menu.created_at)));
    }

    fn oldest(&self) -> (r: usize)
        requires
            self.wf(),
            self.entries@.len() > 0,
        ensures
            r < self.entries@.len(),
            forall|j: int|
                0 <= j < self.entries@.len() ==> self.entries@[r as int].menu.created_at
                    <= self.entries@[j].menu.created_at,
    {
        let mut best: usize = 0;
        let mut i: usize = 1;
        while i < self.entries.len()
            invariant
                best < i <= self.entries@.len(),
                forall|j: int|
                    0 <= j < i ==> self.entries@[best as int].menu.created_at
                        <= self.entries@[j].menu.created_at,
            decreases self.entries@.len() - i,
        {
            if self.entries[i].menu.created_at < self.entries[best].menu.created_at {
                best = i;
            }
            i = i + 1;
        }
        best
    }
}

/// Drops the menus that can no longer be used.
pub fn prune_download_menus(downloads: &mut DownloadMenus, now: u64)
    requires
        old(downloads).wf(),
    ensures
        final(downloads).wf(),
        final(downloads)@ == fresh_menus(old(downloads)@, now),
{
    let mut i: usize = 0;
    while i < downloads.entries.len()
        invariant
            downloads.wf(),
            i <= downloads.entries@.len(),
            fresh_menus(downloads@, now) == fresh_menus(old(downloads)@, now),
            forall|j: int|
                0 <= j < i ==> is_fresh(#[trigger] downloads.entries@[j].menu.created_at, now),
        decreases downloads.entries@.len() - i,
    {
        let created_at: u64 = downloads.entries[i].menu.created_at;
        if now >= created_at && now - created_at >= DOWNLOAD_MENU_TTL {
            let ghost before = downloads@;
            proof {
                lemma_entry(downloads.entries@, i as int);
                lemma_entry_removed(downloads.entries@, i as int);
            }
            downloads.entries.remove(i);
            assert(fresh_menus(downloads@, now) =~= fresh_menus(before, now));
        } else {
            i = i + 1;
        }
    }
    proof {
        assert forall|id: Seq<char>| #[trigger] downloads@.contains_key(id) implies is_fresh(
            downloads@[id].1,
            now,
        ) by {
            let j = lemma_entry_of(downloads.entries@, id);
            assert(is_fresh(downloads.entries@[j].menu.created_at, now));
        }
        assert(fresh_menus(downloads@, now) =~= downloads@);
    }
}

/// Keeps a new menu. Menus that can no longer be used leave, and of the others the oldest, so
/// that with the new one there are no more than the limit.
pub fn insert_download_menu(downloads: &mut DownloadMenus, id: String, url: String, now: u64)
    requires
        old(downloads).wf(),
    ensures
        final(downloads).wf(),
        exists|kept: Map<Seq<char>, (Seq<char>, u64)>| #[trigger]
            keeps_newest(
                fresh_menus(old(downloads)@, now),
                kept,
                (MAX_DOWNLOAD_MENUS - 1) as nat,
            ) && final(downloads)@ == kept.insert(id@, (url@, now)),
        final(downloads)@.len() <= MAX_DOWNLOAD_MENUS,
{
    prune_download_menus(downloads, now);
    let ghost fresh = downloads@;
    proof {
        lemma_entry_count(downloads.entries@);
    }
    while downloads.entries.len() >= MAX_DOWNLOAD_MENUS
        invariant
            downloads.wf(),
            fresh.dom().finite(),
            downloads@.len() == downloads.entries@.len(),
            downloads@.dom().finite(),
            downloads@.submap_of(fresh),
            downloads.entries@.len() <= fresh.len(),
            fresh.len() >= MAX_DOWNLOAD_MENUS ==> downloads.entries@.len() >= MAX_DOWNLOAD_MENUS
                - 1,
            fresh.len() < MAX_DOWNLOAD_MENUS ==> downloads.entries@.len() == fresh.len(),
            forall|gone: Seq<char>, stays: Seq<char>|
                fresh.contains_key(gone) && !downloads@.contains_key(gone)
                    && downloads@.contains_key(stays) ==> (#[trigger] fresh[gone]).1 <= (
                #[trigger] downloads@[stays]).1,
        decreases downloads.entries@.len(),
    {
        let i: usize = downloads.oldest();
        let ghost before = downloads@;
        proof {
            lemma_entry(downloads.entries@, i as int);
            lemma_entry_removed(downloads.entries@, i as int);
            assert forall|stays: Seq<char>| #[trigger]
                before.contains_key(stays) implies downloads.entries@[i as int].menu.created_at
                <= before[stays].1 by {
                let j = lemma_entry_of(downloads.entries@, stays);
            }
        }
        let gone = downloads.entries.remove(i);
        proof {
            lemma_entry_count(downloads.entries@);
            assert(downloads@ == before.remove(gone.id@));
        }
    }
    let ghost kept = downloads@;
    proof {
        assert(keeps_newest(fresh, kept, (MAX_DOWNLOAD_MENUS - 1) as nat));
    }
    downloads.insert(id, DownloadMenu { url, created_at: now });
}

/// Takes the link of the menu `id` out, if the menu can still be used.
pub fn take_download_url(downloads: &mut DownloadMenus, id: &str, now: u64) -> (r: Option<String>)
    requires
        old(downloads).wf(),
    ensures
        final(downloads).wf(),
        final(downloads)@ == fresh_menus(old(downloads)@, now).remove(id@),
        r.deep_view() == taken_url(old(downloads)@, id@, now),
{
    prune_download_menus(downloads, now);
    match downloads.remove(id) {
        Some(menu) => Some(menu.url),
        None => None,
    }
}

/// The link of the menu `id`, if it is kept and can still be used at `now`.
pub open spec fn taken_url(
    menus: Map<Seq<char>, (Seq<char>, u64)>,
    id: Seq<char>,
    now: u64,
) -> Option<Seq<char>> {
    if menus.contains_key(id) && is_fresh(menus[id].1, now) {
        Some(menus[id].0)
    } else {
        None
    }
}

/// Keeps a new menu for `url` under a random identifier and gives the identifier back.
pub fn open_youtube_menu(downloads: &mut DownloadMenus, url: &str, now: u64) -> (r: String)
    requires
        old(downloads).wf(),
    ensures
        final(downloads).wf(),
        is_random_id(r@),
        exists|kept: Map<Seq<char>, (Seq<char>, u64)>| #[trigger]
            keeps_newest(
                fresh_menus(old(downloads)@, now),
                kept,
                (MAX_DOWNLOAD_MENUS - 1) as nat,
            ) && final(downloads)@ == kept.insert(r@, (url@, now)),
        final(downloads)@.len() <= MAX_DOWNLOAD_MENUS,
{
    let id = random_id();
    insert_download_menu(downloads, id.clone(), url.to_owned(), now);
    id
}

/// Notes whether the menu `id` reached the user: one that did not is forgotten.
pub fn settle_youtube_menu(downloads: &mut DownloadMenus, id: &str, sent: bool)
    requires
        old(downloads).wf(),
    ensures
        final(downloads).wf(),
        final(downloads)@ == if sent {
            old(downloads)@
        } else {
            old(downloads)@.remove(id@)
        },
{
    if !sent {
        downloads.remove(id);
    }
}

/// A menu that was just kept gives its link within its time, and none after it.
pub proof fn law_kept_menu_is_taken(
    kept: Map<Seq<char>, (Seq<char>, u64)>,
    id: Seq<char>,
    url: Seq<char>,
    shown: u64,
    now: u64,
)
    requires
        shown <= now,
    ensures
        taken_url(kept.insert(id, (url, shown)), id, now) == if now - shown < DOWNLOAD_MENU_TTL {
            Some(url)
        } else {
            None
        },
{
}

/// A menu is used once: what was taken at one time is not there at any later time.
pub proof fn law_menu_is_taken_once(
    menus: Map<Seq<char>, (Seq<char>, u64)>,
    id: Seq<char>,
    first: u64,
    second: u64,
)
    ensures
        taken_url(fresh_menus(menus, first).remove(id), id, second) is None,
{
}

/// Taking one menu leaves every other menu that can still be used as it was.
pub proof fn law_other_menus_stay(
    menus: Map<Seq<char>, (Seq<char>, u64)>,
    id: Seq<char>,
    other: Seq<char>,
    now: u64,
)
    requires
        other != id,
    ensures
        taken_url(fresh_menus(menus, now).remove(id), other, now) == taken_url(menus, other, now),
{
}

/// A menu that can no longer be used never can be again, as time goes on.
pub proof fn law_expired_stays_expired(created_at: u64, now: u64, later: u64)
    requires
        !is_fresh(created_at, now),
        now <= later,
    ensures
        !is_fresh(created_at, later),
{
}

// Laws of choices and menus

/// The tags that data of a button can begin with, each with the kind that it asks for. The short
/// one for videos asks for the default height.
pub open spec fn choice_tags() -> Seq<(Seq<char>, DownloadKind)> {
    seq![
        ("ytv480:"@, DownloadKind::YouTubeVideo480),
        ("ytv720:"@, DownloadKind::YouTubeVideo720),
        ("ytv1024:"@, DownloadKind::YouTubeVideo1024),
        ("ytv1440:"@, DownloadKind::YouTubeVideo1440),
        ("ytv2160:"@, DownloadKind::YouTubeVideo2160),
        ("ytv:"@, DownloadKind::YouTubeVideo1024),
        ("yta:"@, DownloadKind::YouTubeAudio),
    ]
}

/// Data is a choice just when it begins with one of the tags: it asks for the kind of the tag, in
/// the menu that the rest of it names.
pub proof fn law_choices_go_by_their_tag(data: Seq<char>, k: int, id: Seq<char>)
    requires
        0 <= k < 7,
    ensures
        callback_choice(choice_tags()[k].0 + id) == Some((choice_tags()[k].1, id)),
        callback_choice(data) matches Some((kind, menu)) ==> exists|t: int|
            0 <= t < 7 && (#[trigger] choice_tags()[t]).1 == kind && data == choice_tags()[t].0
                + menu,
{
    reveal_strlit("ytv480:");
    reveal_strlit("ytv720:");
    reveal_strlit("ytv1024:");
    reveal_strlit("ytv1440:");
    reveal_strlit("ytv2160:");
    reveal_strlit("ytv:");
    reveal_strlit("yta:");
    let (tag, kind) = choice_tags()[k];
    let text = tag + id;
    assert(text.take(tag.len() as int) =~= tag);
    assert(text.skip(tag.len() as int) =~= id);
    assert forall|other: Seq<char>| #[trigger] has_prefix(text, other) implies forall|i: int|
        0 <= i < other.len() ==> text[i] == other[i] by {
        assert forall|i: int| 0 <= i < other.len() implies text[i] == other[i] by {
            assert(text.take(other.len() as int)[i] == text[i]);
        }
    }
    assert(forall|i: int| 0 <= i < tag.len() ==> text[i] == tag[i]);
    assert("ytv480:"@[3] == '4' && "ytv720:"@[3] == '7' && "ytv1024:"@[3] == '1' && "ytv1440:"@[3]
        == '1' && "ytv2160:"@[3] == '2' && "ytv:"@[3] == ':' && "yta:"@[2] == 'a');
    assert("ytv1024:"@[4] == '0' && "ytv1440:"@[4] == '4');
    assert(text[2] == tag[2] && text[3] == tag[3]);
    if let Some((asked, menu)) = callback_choice(data) {
        assert forall|t: int| 0 <= t < 7 && has_prefix(data, (#[trigger] choice_tags()[t]).0) implies
            data == choice_tags()[t].0 + data.skip(choice_tags()[t].0.len() as int) by {
            let start = choice_tags()[t].0;
            assert(data =~= data.take(start.len() as int) + data.skip(start.len() as int));
        }
        assert(choice_tags()[0] == ("ytv480:"@, DownloadKind::YouTubeVideo480));
        assert(choice_tags()[1] == ("ytv720:"@, DownloadKind::YouTubeVideo720));
        assert(choice_tags()[2] == ("ytv1024:"@, DownloadKind::YouTubeVideo1024));
        assert(choice_tags()[3] == ("ytv1440:"@, DownloadKind::YouTubeVideo1440));
        assert(choice_tags()[4] == ("ytv2160:"@, DownloadKind::YouTubeVideo2160));
        assert(choice_tags()[5] == ("ytv:"@, DownloadKind::YouTubeVideo1024));
        assert(choice_tags()[6] == ("yta:"@, DownloadKind::YouTubeAudio));
    }
}

/// A menu offers four heights in two rows and audio below, each under its name, and each button
/// asks for what its name says.
pub proof fn law_menu_offers_each_quality(id: Seq<char>)
    ensures
        menu_rows(id) == seq![
            seq![("480p"@, "ytv480:"@ + id), ("720p"@, "ytv720:"@ + id)],
            seq![("1024p"@, "ytv1024:"@ + id), ("4K"@, "ytv2160:"@ + id)],
            seq![("Audio"@, "yta:"@ + id)],
        ],
{
    assert(menu_rows(id)[0] =~= seq![("480p"@, "ytv480:"@ + id), ("720p"@, "ytv720:"@ + id)]);
    assert(menu_rows(id)[1] =~= seq![("1024p"@, "ytv1024:"@ + id), ("4K"@, "ytv2160:"@ + id)]);
    assert(menu_rows(id)[2] =~= seq![("Audio"@, "yta:"@ + id)]);
    assert(menu_rows(id) =~= seq![
        seq![("480p"@, "ytv480:"@ + id), ("720p"@, "ytv720:"@ + id)],
        seq![("1024p"@, "ytv1024:"@ + id), ("4K"@, "ytv2160:"@ + id)],
        seq![("Audio"@, "yta:"@ + id)],
    ]);
}

/// A link is taken from a menu just when the menu is kept and was shown less than half an hour ago.
pub proof fn law_menu_lasts_half_an_hour(
    menus: Map<Seq<char>, (Seq<char>, u64)>,
    id: Seq<char>,
    now: u64,
)
    ensures
        taken_url(menus, id, now) is Some <==> menus.contains_key(id) && menus[id].1
            + 1_800_000_000_000 > now,
        taken_url(menus, id, now) matches Some(url) ==> url == menus[id].0,
{
}

/// Dropping the menus that expired keeps all others as they are, and nothing else.
pub proof fn law_only_expired_menus_are_dropped(
    menus: Map<Seq<char>, (Seq<char>, u64)>,
    id: Seq<char>,
    now: u64,
)
    ensures
        fresh_menus(menus, now).contains_key(id) <==> menus.contains_key(id) && menus[id].1
            + 1_800_000_000_000 > now,
        fresh_menus(menus, now).contains_key(id) ==> fresh_menus(menus, now)[id] == menus[id],
{
}

/// A new menu is kept with its link and its time. Every other menu that is kept was there before
/// and is as it was. Where there were fewer than 1024 menus that had not expired, all of them stay;
/// else 1023 of them stay, and none that leaves is newer than one that stays.
pub proof fn law_new_menu_keeps_the_others(
    menus: Map<Seq<char>, (Seq<char>, u64)>,
    kept: Map<Seq<char>, (Seq<char>, u64)>,
    id: Seq<char>,
    url: Seq<char>,
    now: u64,
    other: Seq<char>,
    gone: Seq<char>,
)
    requires
        menus.dom().finite(),
        keeps_newest(fresh_menus(menus, now), kept, (MAX_DOWNLOAD_MENUS - 1) as nat),
    ensures
        ({
            let after = kept.insert(id, (url, now));
            let fresh = fresh_menus(menus, now);
            &&& after.contains_key(id) && after[id] == (url, now)
            &&& other != id && after.contains_key(other) ==> menus.contains_key(other)
                && after[other] == menus[other] && menus[other].1 + 1_800_000_000_000 > now
            &&& fresh.len() < 1024 && menus.contains_key(other) && menus[other].1
                + 1_800_000_000_000 > now ==> after.contains_key(other)
            &&& fresh.len() >= 1024 ==> kept.len() == 1023
            &&& other != id && after.contains_key(other) && menus.contains_key(gone)
                && menus[gone].1 + 1_800_000_000_000 > now && !after.contains_key(gone)
                ==> menus[gone].1 <= menus[other].1
            &&& after.len() <= 1024
        }),
{
    let after = kept.insert(id, (url, now));
    let fresh = fresh_menus(menus, now);
    assert(fresh.dom().subset_of(menus.dom()));
    vstd::set_lib::lemma_len_subset(fresh.dom(), menus.dom());
    if other != id && after.contains_key(other) {
        assert(kept.contains_key(other));
        assert(kept.dom().contains(other) && fresh.dom().contains(other));
        assert(kept[other] == fresh[other]);
    }
    if fresh.len() < 1024 && fresh.contains_key(other) && !kept.contains_key(other) {
        assert(kept.dom().subset_of(fresh.dom().remove(other)));
        vstd::set_lib::lemma_len_subset(kept.dom(), fresh.dom().remove(other));
    }
    if other != id && after.contains_key(other) && fresh.contains_key(gone)
        && !after.contains_key(gone) {
        assert(fresh[gone].1 <= kept[other].1);
    }
}

/// The functions of menus do what their laws speak of: data that begins with a tag is read as its
/// choice, and every button of a menu is one of the choices, with the menu behind its tag.
pub proof fn law_menu_functions(
    data: &str,
    choice: Option<(DownloadKind, &str)>,
    id: &str,
    rows: Vec<Vec<MenuButton>>,
)
    requires
        call_ensures(parse_youtube_download_callback, (data,), choice),
        call_ensures(youtube_menu, (id,), rows),
    ensures
        choice matches Some((kind, menu)) ==> exists|t: int|
            0 <= t < 7 && (#[trigger] choice_tags()[t]).1 == kind && data@ == choice_tags()[t].0
                + menu@,
        choice is None ==> forall|t: int|
            0 <= t < 7 ==> !has_prefix(data@, (#[trigger] choice_tags()[t]).0),
        rows.deep_view() == seq![
            seq![("480p"@, "ytv480:"@ + id@), ("720p"@, "ytv720:"@ + id@)],
            seq![("1024p"@, "ytv1024:"@ + id@), ("4K"@, "ytv2160:"@ + id@)],
            seq![("Audio"@, "yta:"@ + id@)],
        ],
{
    law_choices_go_by_their_tag(data@, 0, id@);
    law_menu_offers_each_quality(id@);
    if choice is None {
        assert forall|t: int| 0 <= t < 7 implies !has_prefix(
            data@,
            (#[trigger] choice_tags()[t]).0,
        ) by {
            let tag = choice_tags()[t].0;
            if has_prefix(data@, tag) {
                law_choices_go_by_their_tag(data@, t, data@.skip(tag.len() as int));
                assert(data@ =~= tag + data@.skip(tag.len() as int));
            }
        }
    }
}

/// To take a link is to take it from a menu that was shown less than half an hour ago, and once: the
/// menu is then gone, with those that expired, and every other one stays as it was.
pub proof fn law_taking_uses_the_menu(
    downloads: &mut DownloadMenus,
    id: &str,
    now: u64,
    url: Option<String>,
    other: Seq<char>,
)
    requires
        old(downloads).wf(),
        call_ensures(take_download_url, (downloads, id, now), url),
    ensures
        final(downloads).wf(),
        url is Some <==> old(downloads)@.contains_key(id@) && old(downloads)@[id@].1
            + 1_800_000_000_000 > now,
        url matches Some(link) ==> link@ == old(downloads)@[id@].0,
        !final(downloads)@.contains_key(id@),
        other != id@ ==> (final(downloads)@.contains_key(other) <==> old(downloads)@.contains_key(
            other,
        ) && old(downloads)@[other].1 + 1_800_000_000_000 > now),
        final(downloads)@.contains_key(other) ==> final(downloads)@[other] == old(downloads)@[other],
{
    law_menu_lasts_half_an_hour(old(downloads)@, id@, now);
    law_only_expired_menus_are_dropped(old(downloads)@, other, now);
    if url is Some {
        assert(url.deep_view() == Some(url->0@));
    }
}

/// Pruning drops the menus that expired, and nothing else.
pub proof fn law_pruning_drops_what_expired(
    downloads: &mut DownloadMenus,
    now: u64,
    id: Seq<char>,
)
    requires
        old(downloads).wf(),
        call_ensures(prune_download_menus, (downloads, now), ()),
    ensures
        final(downloads).wf(),
        final(downloads)@.contains_key(id) <==> old(downloads)@.contains_key(id)
            && old(downloads)@[id].1 + 1_800_000_000_000 > now,
        final(downloads)@.contains_key(id) ==> final(downloads)@[id] == old(downloads)@[id],
{
    law_only_expired_menus_are_dropped(old(downloads)@, id, now);
}

/// A menu that is kept anew can be used, with its link, and takes the place of none that can still
/// be used, as long as there are fewer than 1024 of these.
pub proof fn law_inserting_keeps_the_menu(
    downloads: &mut DownloadMenus,
    id: String,
    url: String,
    now: u64,
    other: Seq<char>,
)
    requires
        old(downloads).wf(),
        call_ensures(insert_download_menu, (downloads, id, url, now), ()),
    ensures
        final(downloads).wf(),
        final(downloads)@.contains_key(id@) && final(downloads)@[id@] == (url@, now),
        final(downloads)@.len() <= 1024,
        other != id@ && final(downloads)@.contains_key(other) ==> old(downloads)@.contains_key(other)
            && final(downloads)@[other] == old(downloads)@[other] && old(downloads)@[other].1
            + 1_800_000_000_000 > now,
        old(downloads)@.len() < 1024 && old(downloads)@.contains_key(other)
            && old(downloads)@[other].1 + 1_800_000_000_000 > now
            ==> final(downloads)@.contains_key(other),
{
    let menus = old(downloads)@;
    lemma_entry_count(old(downloads).entries@);
    let fresh = fresh_menus(menus, now);
    let kept = choose|kept: Map<Seq<char>, (Seq<char>, u64)>| #[trigger]
        keeps_newest(fresh, kept, (MAX_DOWNLOAD_MENUS - 1) as nat) && final(downloads)@
            == kept.insert(id@, (url@, now));
    law_new_menu_keeps_the_others(menus, kept, id@, url@, now, other, other);
    assert(fresh.dom().subset_of(menus.dom()));
    vstd::set_lib::lemma_len_subset(fresh.dom(), menus.dom());
}

/// A menu that is opened for a link can be used for that link under the identifier that is given
/// back.
pub proof fn law_opened_menu_holds_its_link(
    downloads: &mut DownloadMenus,
    url: &str,
    now: u64,
    id: String,
)
    requires
        old(downloads).wf(),
        call_ensures(open_youtube_menu, (downloads, url, now), id),
    ensures
        final(downloads).wf(),
        final(downloads)@.contains_key(id@) && final(downloads)@[id@] == (url@, now),
        final(downloads)@.len() <= 1024,
        is_random_id(id@),
{
}

/// A menu that did not reach the user is forgotten, and it alone; one that did stays.
pub proof fn law_unsent_menu_is_forgotten(
    downloads: &mut DownloadMenus,
    id: &str,
    sent: bool,
    other: Seq<char>,
)
    requires
        old(downloads).wf(),
        call_ensures(settle_youtube_menu, (downloads, id, sent), ()),
    ensures
        final(downloads).wf(),
        final(downloads)@.contains_key(other) <==> old(downloads)@.contains_key(other) && (sent
            || other != id@),
        final(downloads)@.contains_key(other) ==> final(downloads)@[other] == old(downloads)@[other],
{
}

}

//! The shortcut data model: entries, per-application sets, the merged store and
//! the favourites list.
//!
//! Reading and writing the JSON files is left to the caller; here live the
//! rules: the user's configuration overrides the built-in defaults app by app,
//! a manual addition replaces an app's list, and a favourite toggles in and
//! out of its app's list.

use vstd::prelude::*;

use crate::text::{chars_of, copy_strings, string_of, views};

verus! {

/// One shortcut: its group, its key combination, the action name and a
/// human-readable description.
#[derive(Debug, Clone)]
pub struct ShortcutEntry {
    pub context: String,
    pub keys: String,
    pub action: String,
    pub description: String,
}

/// The model of an entry: `(context, keys, action, description)`.
pub type EntryView = (Seq<char>, Seq<char>, Seq<char>, Seq<char>);

impl View for ShortcutEntry {
    type V = EntryView;

    open spec fn view(&self) -> EntryView {
        (self.context@, self.keys@, self.action@, self.description@)
    }
}

impl ShortcutEntry {
    /// A field-for-field copy.
    pub fn duplicate(&self) -> (out: ShortcutEntry)
        ensures
            out@ == self@,
    {
        ShortcutEntry {
            context: self.context.clone(),
            keys: self.keys.clone(),
            action: self.action.clone(),
            description: self.description.clone(),
        }
    }
}

/// The views of a list of entries.
pub open spec fn entry_views(v: Seq<ShortcutEntry>) -> Seq<EntryView> {
    v.map_values(|e: ShortcutEntry| e@)
}

/// A copy of a list of entries.
pub fn copy_entries(v: &Vec<ShortcutEntry>) -> (out: Vec<ShortcutEntry>)
    ensures
        entry_views(out@) == entry_views(v@),
{
    let mut out: Vec<ShortcutEntry> = Vec::new();
    let mut k: usize = 0;
    while k < v.len()
        invariant
            k <= v.len(),
            entry_views(out@) == entry_views(v@).take(k as int),
        decreases v.len() - k,
    {
        let ghost before = entry_views(out@);
        out.push(v[k].duplicate());
        assert(entry_views(out@) =~= before.push(v@[k as int]@));
        assert(entry_views(v@).take(k + 1) =~= entry_views(v@).take(k as int).push(v@[k as int]@));
        k += 1;
    }
    assert(entry_views(v@).take(v.len() as int) =~= entry_views(v@));
    out
}

/// The shortcuts of one program.
#[derive(Debug, Clone)]
pub struct AppShortcuts {
    pub entries: Vec<ShortcutEntry>,
}

impl View for AppShortcuts {
    type V = Seq<EntryView>;

    open spec fn view(&self) -> Seq<EntryView> {
        entry_views(self.entries@)
    }
}

impl AppShortcuts {
    /// A copy of the list.
    pub fn duplicate(&self) -> (out: AppShortcuts)
        ensures
            out@ == self@,
    {
        AppShortcuts { entries: copy_entries(&self.entries) }
    }
}

impl Default for AppShortcuts {
    fn default() -> (r: AppShortcuts)
        ensures
            r@ == Seq::<EntryView>::empty(),
    {
        let r = AppShortcuts { entries: Vec::new() };
        assert(r@ =~= Seq::<EntryView>::empty());
        r
    }
}

// ---------------------------------------------------------------------------
// The store
// ---------------------------------------------------------------------------

/// The app-id to shortcut-list table a sequence of distinct pairs stands for.
pub open spec fn table_of(pairs: Seq<(String, AppShortcuts)>) -> Map<Seq<char>, Seq<EntryView>>
    decreases pairs.len(),
{
    if pairs.len() == 0 {
        Map::empty()
    } else {
        table_of(pairs.drop_last()).insert(pairs.last().0@, pairs.last().1@)
    }
}

/// No app-id occurs twice.
pub open spec fn distinct_ids(pairs: Seq<(String, AppShortcuts)>) -> bool {
    forall|i: int, j: int|
        0 <= i < j < pairs.len() ==> (#[trigger] pairs[i]).0@ != (#[trigger] pairs[j]).0@
}

proof fn lemma_table_of(pairs: Seq<(String, AppShortcuts)>)
    requires
        distinct_ids(pairs),
    ensures
        forall|k: Seq<char>|
            #[trigger] table_of(pairs).contains_key(k) <==> exists|i: int|
                0 <= i < pairs.len() && pairs[i].0@ == k,
        forall|i: int| 0 <= i < pairs.len() ==> table_of(pairs)[#[trigger] pairs[i].0@] == pairs[i].1@,
    decreases pairs.len(),
{
    if pairs.len() > 0 {
        let init = pairs.drop_last();
        assert(distinct_ids(init));
        lemma_table_of(init);
        assert forall|k: Seq<char>| #[trigger] table_of(pairs).contains_key(k) implies exists|i: int|
            0 <= i < pairs.len() && pairs[i].0@ == k by {
            if k != pairs.last().0@ {
                assert(table_of(init).contains_key(k));
                let i = choose|i: int| 0 <= i < init.len() && init[i].0@ == k;
                assert(init[i] == pairs[i]);
            } else {
                assert(pairs[pairs.len() - 1].0@ == k);
            }
        }
        assert forall|k: Seq<char>|
            (exists|i: int| 0 <= i < pairs.len() && pairs[i].0@ == k) implies #[trigger] table_of(
            pairs,
        ).contains_key(k) by {
            let i = choose|i: int| 0 <= i < pairs.len() && pairs[i].0@ == k;
            if i < pairs.len() - 1 {
                assert(init[i] == pairs[i]);
            }
        }
        assert forall|i: int| 0 <= i < pairs.len() implies table_of(pairs)[#[trigger] pairs[i].0@]
            == pairs[i].1@ by {
            if i < pairs.len() - 1 {
                assert(init[i] == pairs[i]);
                assert(pairs[i].0@ != pairs.last().0@);
            }
        }
    }
}

/// The merged shortcut database: app-id to that program's shortcuts.
pub struct ShortcutStore {
    apps: Vec<(String, AppShortcuts)>,
}

impl View for ShortcutStore {
    type V = Map<Seq<char>, Seq<EntryView>>;

    closed spec fn view(&self) -> Map<Seq<char>, Seq<EntryView>> {
        table_of(self.apps@)
    }
}

impl ShortcutStore {
    #[verifier::type_invariant]
    closed spec fn ids_distinct(&self) -> bool {
        distinct_ids(self.apps@)
    }

    /// An empty store.
    pub fn new() -> (r: ShortcutStore)
        ensures
            r@ == Map::<Seq<char>, Seq<EntryView>>::empty(),
    {
        let r = ShortcutStore { apps: Vec::new() };
        assert(r@ =~= Map::<Seq<char>, Seq<EntryView>>::empty());
        r
    }

    fn position(&self, app_id: &Vec<char>) -> (r: Option<usize>)
        ensures
            match r {
                Some(i) => i < self.apps@.len() && self.apps@[i as int].0@ == app_id@,
                None => forall|i: int| 0 <= i < self.apps@.len() ==> self.apps@[i].0@ != app_id@,
            },
    {
        let mut i: usize = 0;
        while i < self.apps.len()
            invariant
                i <= self.apps@.len(),
                forall|k: int| 0 <= k < i ==> self.apps@[k].0@ != app_id@,
            decreases self.apps.len() - i,
        {
            let c = chars_of(self.apps[i].0.as_str());
            if c.len() == app_id.len() && same_chars(&c, app_id) {
                return Some(i);
            }
            i += 1;
        }
        None
    }

    /// The shortcuts recorded for an app-id, if any.
    pub fn get(&self, app_id: &str) -> (r: Option<&AppShortcuts>)
        ensures
            match r {
                Some(a) => self@.contains_key(app_id@) && a@ == self@[app_id@],
                None => !self@.contains_key(app_id@),
            },
    {
        proof {
            use_type_invariant(self);
            lemma_table_of(self.apps@);
        }
        let key = chars_of(app_id);
        match self.position(&key) {
            Some(i) => Some(&self.apps[i].1),
            None => None,
        }
    }

    /// Records `app` as the shortcuts of `app_id`, replacing what it had.
    pub fn insert(&mut self, app_id: String, app: AppShortcuts)
        ensures
            final(self)@ == old(self)@.insert(app_id@, app@),
    {
        proof {
            use_type_invariant(&*self);
            lemma_table_of(self.apps@);
        }
        let key = chars_of(app_id.as_str());
        let pos = self.position(&key);
        let ghost old_pairs = self.apps@;
        let mut apps: Vec<(String, AppShortcuts)> = Vec::new();
        std::mem::swap(&mut apps, &mut self.apps);
        let ghost kv = app_id@;
        let ghost av = app@;
        match pos {
            Some(i) => {
                apps.set(i, (app_id, app));
                proof {
                    assert(distinct_ids(apps@)) by {
                        assert forall|a: int, b: int| 0 <= a < b < apps@.len() implies (
                        #[trigger] apps@[a]).0@ != (#[trigger] apps@[b]).0@ by {
                            if a != i as int && b != i as int {
                                assert(apps@[a] == old_pairs[a] && apps@[b] == old_pairs[b]);
                            } else if a == i as int {
                                assert(apps@[b] == old_pairs[b]);
                                assert(old_pairs[i as int].0@ != old_pairs[b].0@);
                            } else {
                                assert(apps@[a] == old_pairs[a]);
                                assert(old_pairs[a].0@ != old_pairs[i as int].0@);
                            }
                        }
                    }
                    lemma_table_of(apps@);
                    assert(table_of(apps@) =~= table_of(old_pairs).insert(kv, av)) by {
                        assert forall|k: Seq<char>| #[trigger] table_of(apps@).contains_key(k)
                            <==> table_of(old_pairs).insert(kv, av).contains_key(k) by {
                            if table_of(apps@).contains_key(k) && k != kv {
                                let j = choose|j: int| 0 <= j < apps@.len() && apps@[j].0@ == k;
                                assert(j != i as int);
                                assert(apps@[j] == old_pairs[j]);
                            }
                            if table_of(old_pairs).contains_key(k) && k != kv {
                                let j = choose|j: int| 0 <= j < old_pairs.len() && old_pairs[j].0@
                                    == k;
                                assert(j != i as int);
                                assert(apps@[j] == old_pairs[j]);
                            }
                            if k == kv {
                                assert(apps@[i as int].0@ == kv);
                            }
                        }
                        assert forall|k: Seq<char>| #[trigger] table_of(apps@).contains_key(k)
                            implies table_of(apps@)[k] == table_of(old_pairs).insert(kv, av)[k] by {
                            let j = choose|j: int| 0 <= j < apps@.len() && apps@[j].0@ == k;
                            if j != i as int {
                                assert(apps@[j] == old_pairs[j]);
                            }
                        }
                    }
                }
            },
            None => {
                apps.push((app_id, app));
                proof {
                    assert(distinct_ids(apps@)) by {
                        assert forall|a: int, b: int| 0 <= a < b < apps@.len() implies (
                        #[trigger] apps@[a]).0@ != (#[trigger] apps@[b]).0@ by {
                            assert(apps@[a] == old_pairs[a]);
                            if b < old_pairs.len() {
                                assert(apps@[b] == old_pairs[b]);
                            }
                        }
                    }
                    assert(apps@.drop_last() =~= old_pairs);
                }
            },
        }
        self.apps = apps;
    }

    /// Records `entries` as the shortcuts of `app_id` (the manual addition
    /// channel), replacing what it had.
    pub fn add_app_shortcuts(&mut self, app_id: &str, entries: Vec<ShortcutEntry>)
        ensures
            final(self)@ == old(self)@.insert(app_id@, entry_views(entries@)),
    {
        let id = string_of(&chars_of(app_id));
        self.insert(id, AppShortcuts { entries });
    }

    /// The store's app-ids with their shortcuts, each app-id once.
    pub fn pairs(&self) -> (r: &Vec<(String, AppShortcuts)>)
        ensures
            forall|k: Seq<char>|
                #[trigger] self@.contains_key(k) <==> exists|i: int|
                    0 <= i < r@.len() && r@[i].0@ == k,
            forall|i: int| 0 <= i < r@.len() ==> self@[#[trigger] r@[i].0@] == r@[i].1@,
            forall|i: int, j: int| 0 <= i < j < r@.len() ==> r@[i].0@ != r@[j].0@,
    {
        proof {
            use_type_invariant(self);
            lemma_table_of(self.apps@);
        }
        &self.apps
    }

    /// The full store: the built-in defaults with the user's configuration
    /// laid over them, app by app (a user app-id replaces the default list).
    pub fn load_all(defaults: ShortcutStore, user: Option<ShortcutStore>) -> (r: ShortcutStore)
        ensures
            r@ == match user {
                Some(u) => defaults@.union_prefer_right(u@),
                None => defaults@,
            },
    {
        let mut store = defaults;
        match user {
            None => store,
            Some(u) => {
                proof {
                    use_type_invariant(&u);
                    lemma_table_of(u.apps@);
                }
                let ghost base = store@;
                let ghost uv = u@;
                let ghost upairs = u.apps@;
                let mut k: usize = 0;
                let pairs = u.apps;
                while k < pairs.len()
                    invariant
                        k <= pairs.len(),
                        pairs@ == upairs,
                        distinct_ids(upairs),
                        uv == table_of(upairs),
                        store@ == base.union_prefer_right(table_of(upairs.take(k as int))),
                    decreases pairs.len() - k,
                {
                    let id = string_of(&chars_of(pairs[k].0.as_str()));
                    let app = pairs[k].1.duplicate();
                    store.insert(id, app);
                    assert(upairs.take(k + 1).drop_last() =~= upairs.take(k as int));
                    assert(store@ =~= base.union_prefer_right(table_of(upairs.take(k + 1))));
                    k += 1;
                }
                assert(upairs.take(pairs.len() as int) =~= upairs);
                store
            },
        }
    }
}

impl Default for ShortcutStore {
    fn default() -> (r: ShortcutStore)
        ensures
            r@ == Map::<Seq<char>, Seq<EntryView>>::empty(),
    {
        ShortcutStore::new()
    }
}

fn same_chars(a: &Vec<char>, b: &Vec<char>) -> (r: bool)
    requires
        a.len() == b.len(),
    ensures
        r == (a@ == b@),
{
    let mut k: usize = 0;
    while k < a.len()
        invariant
            a.len() == b.len(),
            k <= a.len(),
            forall|m: int| 0 <= m < k ==> a@[m] == b@[m],
        decreases a.len() - k,
    {
        if a[k] != b[k] {
            return false;
        }
        k += 1;
    }
    assert(a@ =~= b@);
    true
}

// ---------------------------------------------------------------------------
// Paths
// ---------------------------------------------------------------------------

/// `PathBuf::join` with a relative name: a `/` goes between unless the
/// directory is empty or already ends with one.
pub open spec fn path_join(dir: Seq<char>, name: Seq<char>) -> Seq<char> {
    if dir.len() == 0 || dir.last() == '/' {
        dir + name
    } else {
        dir + "/"@ + name
    }
}

/// `dir` joined with a relative file name.
pub fn user_config_path_like(dir: &str, name: &str) -> (out: String)
    ensures
        out@ == path_join(dir@, name@),
{
    path_join_exec(dir, name)
}

fn path_join_exec(dir: &str, name: &str) -> (out: String)
    ensures
        out@ == path_join(dir@, name@),
{
    let d = chars_of(dir);
    let mut out = d.clone();
    assert(out@ =~= d@);
    if d.len() > 0 && d[d.len() - 1] != '/' {
        let mut slash = chars_of("/");
        out.append(&mut slash);
    }
    let mut n = chars_of(name);
    out.append(&mut n);
    string_of(&out)
}

/// KeyTip's configuration directory: `.config/keytip` under the home
/// directory, or relative to the working directory without one.
pub fn config_dir(home: Option<&str>) -> (out: String)
    ensures
        out@ == match home {
            Some(h) => path_join(h@, ".config/keytip"@),
            None => ".config/keytip"@,
        },
{
    match home {
        Some(h) => path_join_exec(h, ".config/keytip"),
        None => string_of(&chars_of(".config/keytip")),
    }
}

/// The user's shortcut configuration file in the configuration directory.
pub fn user_config_path(config_dir: &str) -> (out: String)
    ensures
        out@ == path_join(config_dir@, "shortcuts.json"@),
{
    path_join_exec(config_dir, "shortcuts.json")
}

/// The favourites file in the configuration directory.
pub fn favorites_path(config_dir: &str) -> (out: String)
    ensures
        out@ == path_join(config_dir@, "favorites.json"@),
{
    path_join_exec(config_dir, "favorites.json")
}

// ---------------------------------------------------------------------------
// Favourites
// ---------------------------------------------------------------------------

/// The favourite key of an entry: `keys|context|description`.
pub open spec fn fav_key(e: EntryView) -> Seq<char> {
    e.1 + "|"@ + e.0 + "|"@ + e.3
}

/// The stable key under which an entry is remembered as a favourite
/// (`keys|context|description`; the app-id groups the keys outside).
pub fn favorite_key_of(entry: &ShortcutEntry) -> (out: String)
    ensures
        out@ == fav_key(entry@),
{
    let mut v = chars_of(entry.keys.as_str());
    let mut bar = chars_of("|");
    let mut ctx = chars_of(entry.context.as_str());
    let mut bar2 = chars_of("|");
    let mut desc = chars_of(entry.description.as_str());
    v.append(&mut bar);
    v.append(&mut ctx);
    v.append(&mut bar2);
    v.append(&mut desc);
    string_of(&v)
}

/// The app-id to favourite-keys table a sequence of distinct pairs stands for.
pub open spec fn fav_table_of(pairs: Seq<(String, Vec<String>)>) -> Map<Seq<char>, Seq<Seq<char>>>
    decreases pairs.len(),
{
    if pairs.len() == 0 {
        Map::empty()
    } else {
        fav_table_of(pairs.drop_last()).insert(pairs.last().0@, views(pairs.last().1@))
    }
}

/// No app-id occurs twice.
pub open spec fn distinct_fav_ids(pairs: Seq<(String, Vec<String>)>) -> bool {
    forall|i: int, j: int|
        0 <= i < j < pairs.len() ==> (#[trigger] pairs[i]).0@ != (#[trigger] pairs[j]).0@
}

proof fn lemma_fav_table_of(pairs: Seq<(String, Vec<String>)>)
    requires
        distinct_fav_ids(pairs),
    ensures
        forall|k: Seq<char>|
            #[trigger] fav_table_of(pairs).contains_key(k) <==> exists|i: int|
                0 <= i < pairs.len() && pairs[i].0@ == k,
        forall|i: int|
            0 <= i < pairs.len() ==> fav_table_of(pairs)[#[trigger] pairs[i].0@] == views(
                pairs[i].1@,
            ),
    decreases pairs.len(),
{
    if pairs.len() > 0 {
        let init = pairs.drop_last();
        assert(distinct_fav_ids(init));
        lemma_fav_table_of(init);
        assert forall|k: Seq<char>| #[trigger] fav_table_of(pairs).contains_key(k) implies exists|
            i: int,
        | 0 <= i < pairs.len() && pairs[i].0@ == k by {
            if k != pairs.last().0@ {
                assert(fav_table_of(init).contains_key(k));
                let i = choose|i: int| 0 <= i < init.len() && init[i].0@ == k;
                assert(init[i] == pairs[i]);
            } else {
                assert(pairs[pairs.len() - 1].0@ == k);
            }
        }
        assert forall|k: Seq<char>|
            (exists|i: int| 0 <= i < pairs.len() && pairs[i].0@ == k) implies #[trigger] fav_table_of(
            pairs,
        ).contains_key(k) by {
            let i = choose|i: int| 0 <= i < pairs.len() && pairs[i].0@ == k;
            if i < pairs.len() - 1 {
                assert(init[i] == pairs[i]);
            }
        }
        assert forall|i: int| 0 <= i < pairs.len() implies fav_table_of(pairs)[#[trigger] pairs[
            i
        ].0@] == views(pairs[i].1@) by {
            if i < pairs.len() - 1 {
                assert(init[i] == pairs[i]);
                assert(pairs[i].0@ != pairs.last().0@);
            }
        }
    }
}

/// The favourites of every program: app-id to favourite keys.
pub struct Favorites {
    apps: Vec<(String, Vec<String>)>,
}

impl View for Favorites {
    type V = Map<Seq<char>, Seq<Seq<char>>>;

    closed spec fn view(&self) -> Map<Seq<char>, Seq<Seq<char>>> {
        fav_table_of(self.apps@)
    }
}

impl Favorites {
    #[verifier::type_invariant]
    closed spec fn ids_distinct(&self) -> bool {
        distinct_fav_ids(self.apps@)
    }

    /// No favourites at all.
    pub fn new() -> (r: Favorites)
        ensures
            r@ == Map::<Seq<char>, Seq<Seq<char>>>::empty(),
    {
        let r = Favorites { apps: Vec::new() };
        assert(r@ =~= Map::<Seq<char>, Seq<Seq<char>>>::empty());
        r
    }

    fn position(&self, app_id: &Vec<char>) -> (r: Option<usize>)
        ensures
            match r {
                Some(i) => i < self.apps@.len() && self.apps@[i as int].0@ == app_id@,
                None => forall|i: int| 0 <= i < self.apps@.len() ==> self.apps@[i].0@ != app_id@,
            },
    {
        let mut i: usize = 0;
        while i < self.apps.len()
            invariant
                i <= self.apps@.len(),
                forall|k: int| 0 <= k < i ==> self.apps@[k].0@ != app_id@,
            decreases self.apps.len() - i,
        {
            let c = chars_of(self.apps[i].0.as_str());
            if c.len() == app_id.len() && same_chars(&c, app_id) {
                return Some(i);
            }
            i += 1;
        }
        None
    }

    /// The favourite keys of an app-id, if it has an entry.
    pub fn get(&self, app_id: &str) -> (r: Option<&Vec<String>>)
        ensures
            match r {
                Some(l) => self@.contains_key(app_id@) && views(l@) == self@[app_id@],
                None => !self@.contains_key(app_id@),
            },
    {
        proof {
            use_type_invariant(self);
            lemma_fav_table_of(self.apps@);
        }
        let key = chars_of(app_id);
        match self.position(&key) {
            Some(i) => Some(&self.apps[i].1),
            None => None,
        }
    }

    /// Records `keys` as the favourites of `app_id`, replacing what it had.
    pub fn insert(&mut self, app_id: String, keys: Vec<String>)
        ensures
            final(self)@ == old(self)@.insert(app_id@, views(keys@)),
    {
        proof {
            use_type_invariant(&*self);
            lemma_fav_table_of(self.apps@);
        }
        let key = chars_of(app_id.as_str());
        let pos = self.position(&key);
        let ghost old_pairs = self.apps@;
        let mut apps: Vec<(String, Vec<String>)> = Vec::new();
        std::mem::swap(&mut apps, &mut self.apps);
        let ghost kv = app_id@;
        let ghost lv = views(keys@);
        match pos {
            Some(i) => {
                apps.set(i, (app_id, keys));
                proof {
                    assert(distinct_fav_ids(apps@)) by {
                        assert forall|a: int, b: int| 0 <= a < b < apps@.len() implies (
                        #[trigger] apps@[a]).0@ != (#[trigger] apps@[b]).0@ by {
                            if a != i as int && b != i as int {
                                assert(apps@[a] == old_pairs[a] && apps@[b] == old_pairs[b]);
                            } else if a == i as int {
                                assert(apps@[b] == old_pairs[b]);
                                assert(old_pairs[i as int].0@ != old_pairs[b].0@);
                            } else {
                                assert(apps@[a] == old_pairs[a]);
                                assert(old_pairs[a].0@ != old_pairs[i as int].0@);
                            }
                        }
                    }
                    lemma_fav_table_of(apps@);
                    assert(fav_table_of(apps@) =~= fav_table_of(old_pairs).insert(kv, lv)) by {
                        assert forall|k: Seq<char>| #[trigger] fav_table_of(apps@).contains_key(k)
                            <==> fav_table_of(old_pairs).insert(kv, lv).contains_key(k) by {
                            if fav_table_of(apps@).contains_key(k) && k != kv {
                                let j = choose|j: int| 0 <= j < apps@.len() && apps@[j].0@ == k;
                                assert(j != i as int);
                                assert(apps@[j] == old_pairs[j]);
                            }
                            if fav_table_of(old_pairs).contains_key(k) && k != kv {
                                let j = choose|j: int| 0 <= j < old_pairs.len() && old_pairs[j].0@
                                    == k;
                                assert(j != i as int);
                                assert(apps@[j] == old_pairs[j]);
                            }
                            if k == kv {
                                assert(apps@[i as int].0@ == kv);
                            }
                        }
                        assert forall|k: Seq<char>| #[trigger] fav_table_of(apps@).contains_key(k)
                            implies fav_table_of(apps@)[k] == fav_table_of(old_pairs).insert(
                            kv,
                            lv,
                        )[k] by {
                            let j = choose|j: int| 0 <= j < apps@.len() && apps@[j].0@ == k;
                            if j != i as int {
                                assert(apps@[j] == old_pairs[j]);
                            }
                        }
                    }
                }
            },
            None => {
                apps.push((app_id, keys));
                proof {
                    assert(distinct_fav_ids(apps@)) by {
                        assert forall|a: int, b: int| 0 <= a < b < apps@.len() implies (
                        #[trigger] apps@[a]).0@ != (#[trigger] apps@[b]).0@ by {
                            assert(apps@[a] == old_pairs[a]);
                            if b < old_pairs.len() {
                                assert(apps@[b] == old_pairs[b]);
                            }
                        }
                    }
                    assert(apps@.drop_last() =~= old_pairs);
                }
            },
        }
        self.apps = apps;
    }

    /// The app-ids with their favourite keys, each app-id once.
    pub fn pairs(&self) -> (r: &Vec<(String, Vec<String>)>)
        ensures
            forall|k: Seq<char>|
                #[trigger] self@.contains_key(k) <==> exists|i: int|
                    0 <= i < r@.len() && r@[i].0@ == k,
            forall|i: int| 0 <= i < r@.len() ==> self@[#[trigger] r@[i].0@] == views(r@[i].1@),
            forall|i: int, j: int| 0 <= i < j < r@.len() ==> r@[i].0@ != r@[j].0@,
    {
        proof {
            use_type_invariant(self);
            lemma_fav_table_of(self.apps@);
        }
        &self.apps
    }
}

/// `s` without the first occurrence of `k`.
pub open spec fn remove_first(s: Seq<Seq<char>>, k: Seq<char>) -> Seq<Seq<char>>
    decreases s.len(),
{
    if s.len() == 0 {
        s
    } else if s[0] == k {
        s.drop_first()
    } else {
        seq![s[0]] + remove_first(s.drop_first(), k)
    }
}

/// Toggling `k` in a favourite list: a present key leaves (its first
/// occurrence) and `false` is reported, a missing one is appended and `true`
/// is reported.
pub open spec fn toggled(list: Seq<Seq<char>>, k: Seq<char>) -> (Seq<Seq<char>>, bool) {
    if list.contains(k) {
        (remove_first(list, k), false)
    } else {
        (list.push(k), true)
    }
}

/// The favourite list of an app-id (empty when it has none).
pub open spec fn fav_list(m: Map<Seq<char>, Seq<Seq<char>>>, app: Seq<char>) -> Seq<Seq<char>> {
    if m.contains_key(app) {
        m[app]
    } else {
        Seq::empty()
    }
}

/// Toggles an entry in or out of an app's favourites and reports whether it
/// is a favourite now.
pub fn toggle_favorite(all: &mut Favorites, app_id: &str, entry: &ShortcutEntry) -> (now: bool)
    ensures
        final(all)@ == old(all)@.insert(
            app_id@,
            toggled(fav_list(old(all)@, app_id@), fav_key(entry@)).0,
        ),
        now == toggled(fav_list(old(all)@, app_id@), fav_key(entry@)).1,
{
    let key = favorite_key_of(entry);
    let list: Vec<String> = match all.get(app_id) {
        Some(l) => copy_strings(l),
        None => Vec::new(),
    };
    assert(views(list@) =~= fav_list(old(all)@, app_id@));
    let ghost lv = views(list@);
    let mut out: Vec<String> = Vec::new();
    let mut removed = false;
    let mut i: usize = 0;
    assert(lv.skip(0) =~= lv);
    while i < list.len()
        invariant
            i <= list.len(),
            lv == views(list@),
            removed == lv.take(i as int).contains(key@),
            views(out@) + (if removed {
                lv.skip(i as int)
            } else {
                remove_first(lv.skip(i as int), key@)
            }) == remove_first(lv, key@),
        decreases list.len() - i,
    {
        let ghost before = views(out@);
        let ghost rest = lv.skip(i as int);
        assert(rest.drop_first() =~= lv.skip(i + 1));
        assert(rest[0] == list@[i as int]@);
        let c = chars_of(list[i].as_str());
        let kc = chars_of(key.as_str());
        let is_key = c.len() == kc.len() && same_chars(&c, &kc);
        proof {
            assert(is_key == (lv[i as int] == key@));
            assert(lv.take(i + 1) =~= lv.take(i as int).push(lv[i as int]));
            let p0 = lv.take(i as int);
            let p1 = lv.take(i + 1);
            if p0.contains(key@) {
                let j = choose|j: int| 0 <= j < p0.len() && p0[j] == key@;
                assert(p1[j] == key@);
            }
            if p1.contains(key@) && lv[i as int] != key@ {
                let j = choose|j: int| 0 <= j < p1.len() && p1[j] == key@;
                assert(j < i);
                assert(p0[j] == key@);
            }
            if lv[i as int] == key@ {
                assert(lv.take(i + 1)[i as int] == key@);
            }
        }
        if !removed && is_key {
            removed = true;
        } else {
            out.push(list[i].clone());
            assert(views(out@) =~= before.push(lv[i as int]));
            assert(before + (seq![lv[i as int]] + rest.drop_first()) =~= before.push(lv[i as int])
                + rest.drop_first());
            assert(before + (seq![lv[i as int]] + remove_first(rest.drop_first(), key@))
                =~= before.push(lv[i as int]) + remove_first(rest.drop_first(), key@));
        }
        assert(lv.take(i + 1) =~= lv.take(i as int).push(lv[i as int]));
        i += 1;
    }
    assert(lv.take(list.len() as int) =~= lv);
    assert(lv.skip(list.len() as int) =~= Seq::<Seq<char>>::empty());
    proof {
        lemma_remove_first(lv, key@);
    }
    let ghost outv = views(out@);
    let now = if removed {
        false
    } else {
        out.push(key);
        assert(views(out@) =~= outv.push(key@));
        true
    };
    let id = string_of(&chars_of(app_id));
    all.insert(id, out);
    now
}

// ---------------------------------------------------------------------------
// Laws of favourites
// ---------------------------------------------------------------------------

/// No key occurs twice in a list.
pub open spec fn no_dups(s: Seq<Seq<char>>) -> bool {
    forall|i: int, j: int| 0 <= i < j < s.len() ==> s[i] != s[j]
}

proof fn lemma_remove_first(s: Seq<Seq<char>>, k: Seq<char>)
    ensures
        s.contains(k) ==> remove_first(s, k).len() + 1 == s.len(),
        !s.contains(k) ==> remove_first(s, k) == s,
        forall|x: Seq<char>| x != k ==> (remove_first(s, k).contains(x) <==> s.contains(x)),
        no_dups(s) ==> no_dups(remove_first(s, k)) && !remove_first(s, k).contains(k),
    decreases s.len(),
{
    if s.len() > 0 {
        let t = s.drop_first();
        lemma_remove_first(t, k);
        assert forall|x: Seq<char>| #[trigger] s.contains(x) <==> (x == s[0] || t.contains(x)) by {
            if s.contains(x) && x != s[0] {
                let i = choose|i: int| 0 <= i < s.len() && s[i] == x;
                assert(t[i - 1] == x);
            }
            if t.contains(x) {
                let i = choose|i: int| 0 <= i < t.len() && t[i] == x;
                assert(s[i + 1] == x);
            }
            if x == s[0] {
                assert(s[0] == x);
            }
        }
        if s[0] != k {
            let r = seq![s[0]] + remove_first(t, k);
            assert forall|x: Seq<char>| #[trigger] r.contains(x) <==> (x == s[0] || remove_first(
                t,
                k,
            ).contains(x)) by {
                if r.contains(x) && x != s[0] {
                    let i = choose|i: int| 0 <= i < r.len() && r[i] == x;
                    assert(remove_first(t, k)[i - 1] == x);
                }
                if remove_first(t, k).contains(x) {
                    let i = choose|i: int| 0 <= i < remove_first(t, k).len() && remove_first(t, k)[i]
                        == x;
                    assert(r[i + 1] == x);
                }
                if x == s[0] {
                    assert(r[0] == x);
                }
            }
            if !s.contains(k) {
                assert(r =~= s);
            }
            if no_dups(s) {
                assert(no_dups(t)) by {
                    assert forall|i: int, j: int| 0 <= i < j < t.len() implies t[i] != t[j] by {
                        assert(s[i + 1] != s[j + 1]);
                    }
                }
                assert(!remove_first(t, k).contains(s[0])) by {
                    if t.contains(s[0]) {
                        let i = choose|i: int| 0 <= i < t.len() && t[i] == s[0];
                        assert(s[i + 1] == s[0]);
                    }
                }
                assert(no_dups(r)) by {
                    assert forall|i: int, j: int| 0 <= i < j < r.len() implies r[i] != r[j] by {
                        if i == 0 {
                            assert(r[j] == remove_first(t, k)[j - 1]);
                        } else {
                            assert(r[i] == remove_first(t, k)[i - 1]);
                            assert(r[j] == remove_first(t, k)[j - 1]);
                        }
                    }
                }
            }
        } else {
            if no_dups(s) {
                assert(no_dups(t)) by {
                    assert forall|i: int, j: int| 0 <= i < j < t.len() implies t[i] != t[j] by {
                        assert(s[i + 1] != s[j + 1]);
                    }
                }
                assert(!t.contains(k)) by {
                    if t.contains(k) {
                        let i = choose|i: int| 0 <= i < t.len() && t[i] == k;
                        assert(s[i + 1] == s[0]);
                    }
                }
            }
        }
    }
}

/// On a favourite list without repeats, toggling reports exactly whether the
/// key is in the list afterwards, and leaves the list without repeats.
pub proof fn law_toggle_reports_membership(list: Seq<Seq<char>>, k: Seq<char>)
    requires
        no_dups(list),
    ensures
        toggled(list, k).1 == toggled(list, k).0.contains(k),
        no_dups(toggled(list, k).0),
{
    lemma_remove_first(list, k);
    if !list.contains(k) {
        let p = list.push(k);
        assert(p[list.len() as int] == k);
        assert(no_dups(p)) by {
            assert forall|i: int, j: int| 0 <= i < j < p.len() implies p[i] != p[j] by {
                if j == list.len() {
                    assert(p[i] == list[i]);
                } else {
                    assert(p[i] == list[i] && p[j] == list[j]);
                }
            }
        }
    }
}

/// Toggling the same entry twice leaves the same set of favourites, and a
/// list that did not hold the key comes back exactly.
pub proof fn law_toggle_twice(list: Seq<Seq<char>>, k: Seq<char>)
    requires
        no_dups(list),
    ensures
        forall|x: Seq<char>|
            #[trigger] toggled(toggled(list, k).0, k).0.contains(x) <==> list.contains(x),
        !list.contains(k) ==> toggled(toggled(list, k).0, k).0 == list,
{
    lemma_remove_first(list, k);
    if list.contains(k) {
        let once = remove_first(list, k);
        assert(!once.contains(k));
        let twice = once.push(k);
        assert forall|x: Seq<char>| #[trigger] twice.contains(x) <==> list.contains(x) by {
            if twice.contains(x) && x != k {
                let i = choose|i: int| 0 <= i < twice.len() && twice[i] == x;
                assert(once[i] == x);
            }
            if x == k {
                assert(twice[once.len() as int] == k);
            }
            if once.contains(x) {
                let i = choose|i: int| 0 <= i < once.len() && once[i] == x;
                assert(twice[i] == x);
            }
        }
    } else {
        let once = list.push(k);
        assert(once[list.len() as int] == k);
        assert(once.contains(k));
        assert(remove_first(once, k) =~= list) by {
            lemma_remove_prefix_free(list, k);
        }
    }
}

proof fn lemma_remove_prefix_free(list: Seq<Seq<char>>, k: Seq<char>)
    requires
        !list.contains(k),
    ensures
        remove_first(list.push(k), k) == list,
    decreases list.len(),
{
    if list.len() == 0 {
        assert(list.push(k).drop_first() =~= list);
    } else {
        let t = list.drop_first();
        assert(!t.contains(k)) by {
            if t.contains(k) {
                let i = choose|i: int| 0 <= i < t.len() && t[i] == k;
                assert(list[i + 1] == k);
            }
        }
        lemma_remove_prefix_free(t, k);
        assert(list.push(k).drop_first() =~= t.push(k));
        assert(list.push(k)[0] == list[0]);
        assert(list[0] != k);
        assert(seq![list[0]] + t =~= list);
    }
}

/// In the full store, an app-id that the user configured shows the user's
/// list whatever the defaults hold for it; any other app-id keeps exactly
/// what the defaults give it.
pub proof fn law_user_config_wins(
    defaults: Map<Seq<char>, Seq<EntryView>>,
    user: Map<Seq<char>, Seq<EntryView>>,
    app_id: Seq<char>,
)
    ensures
        user.contains_key(app_id) ==> defaults.union_prefer_right(user).contains_key(app_id)
            && defaults.union_prefer_right(user)[app_id] == user[app_id],
        !user.contains_key(app_id) ==> (defaults.union_prefer_right(user).contains_key(app_id)
            <==> defaults.contains_key(app_id)),
        !user.contains_key(app_id) && defaults.contains_key(app_id) ==> defaults.union_prefer_right(
            user,
        )[app_id] == defaults[app_id],
{
}

/// After shortcuts are added for an app, looking that app up gives exactly
/// the added list, and every other app reads as before.
pub proof fn law_added_shortcuts_read_back(
    store: Map<Seq<char>, Seq<EntryView>>,
    app_id: Seq<char>,
    entries: Seq<EntryView>,
    other: Seq<char>,
)
    ensures
        store.insert(app_id, entries).contains_key(app_id),
        store.insert(app_id, entries)[app_id] == entries,
        other != app_id ==> (store.insert(app_id, entries).contains_key(other)
            <==> store.contains_key(other)),
        other != app_id && store.contains_key(other) ==> store.insert(app_id, entries)[other]
            == store[other],
{
}


} // verus!

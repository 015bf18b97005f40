//! The icon path cache: icons found in a theme are remembered by theme and
//! name, and forgotten after five idle minutes. Times are milliseconds on a
//! monotonic clock that the caller reads.
use vstd::prelude::*;
use crate::parse::{split, split_on};
use crate::paths::{path_join, spec_path_join};

verus! {

/// How long a cache entry lives after it was stored.
pub const ICON_CACHE_TTL_MS: u64 = 300_000;

/// The cache key of an icon: "theme:name", or ":name" without a theme.
pub open spec fn spec_cache_key(name: Seq<char>, theme: Option<Seq<char>>) -> Seq<char> {
    match theme {
        Some(t) => t + ":"@ + name,
        None => ":"@ + name,
    }
}

/// The view of an optional string.
pub open spec fn opt_view(o: Option<&str>) -> Option<Seq<char>> {
    match o {
        Some(s) => Some(s@),
        None => None,
    }
}

/// The cache key of an icon.
pub fn cache_key(name: &str, theme: Option<&str>) -> (k: String)
    ensures
        k@ == spec_cache_key(name@, opt_view(theme)),
{
    match theme {
        Some(t) => {
            let mut k = String::from_str(t);
            k.append(":");
            k.append(name);
            k
        },
        None => {
            let mut k = String::from_str(":");
            k.append(name);
            k
        },
    }
}

/// A remembered icon path and when it was stored.
#[derive(Debug, Clone, PartialEq, Eq)]
pub struct IconCacheEntry {
    pub path: String,
    pub last_used_ms: u64,
}

/// The remembered icon paths, by cache key.
#[derive(Debug)]
pub struct IconLoader {
    pub cache: Vec<(String, IconCacheEntry)>,
}

/// The keys of a list of entries, in order.
pub open spec fn keys_of(e: Seq<(String, IconCacheEntry)>) -> Seq<Seq<char>> {
    e.map_values(|p: (String, IconCacheEntry)| p.0@)
}

/// An entry stored at `stored` is still fresh at `now`.
pub open spec fn fresh(stored: u64, now: u64) -> bool {
    (if now >= stored { (now - stored) as u64 } else { 0u64 }) < ICON_CACHE_TTL_MS
}

impl IconLoader {
    /// Each key occurs once.
    pub open spec fn wf(self) -> bool {
        keys_of(self.cache@).no_duplicates()
    }

    /// Whether some entry has key `k`.
    pub open spec fn has(self, k: Seq<char>) -> bool {
        exists|i: int| 0 <= i < self.cache@.len() && self.cache@[i].0@ == k
    }

    /// The position of the entry with key `k`.
    pub open spec fn position(self, k: Seq<char>) -> int {
        choose|i: int| 0 <= i < self.cache@.len() && self.cache@[i].0@ == k
    }

    /// The cache as a map from key to (path, time stored).
    pub open spec fn map(self) -> Map<Seq<char>, (Seq<char>, u64)> {
        Map::new(
            |k: Seq<char>| self.has(k),
            |k: Seq<char>| (self.cache@[self.position(k)].1.path@, self.cache@[self.position(k)].1.last_used_ms),
        )
    }

    proof fn lemma_map_at(self, i: int)
        requires
            self.wf(),
            0 <= i < self.cache@.len(),
        ensures
            self.map().contains_key(self.cache@[i].0@),
            self.map()[self.cache@[i].0@] == (self.cache@[i].1.path@, self.cache@[i].1.last_used_ms),
    {
        let k = self.cache@[i].0@;
        assert(self.has(k));
        let j = self.position(k);
        assert(keys_of(self.cache@)[i] == k);
        assert(keys_of(self.cache@)[j] == k);
        assert(i == j);
    }

    /// An empty cache.
    pub fn new() -> (l: IconLoader)
        ensures
            l.wf(),
            l.map() == Map::<Seq<char>, (Seq<char>, u64)>::empty(),
    {
        let l = IconLoader { cache: Vec::new() };
        assert(l.map() =~= Map::<Seq<char>, (Seq<char>, u64)>::empty());
        l
    }

    fn find(&self, key: &String) -> (r: Option<usize>)
        ensures
            match r {
                Some(i) => i < self.cache@.len() && self.cache@[i as int].0@ == key@,
                None => !self.has(key@),
            },
    {
        let mut i: usize = 0;
        while i < self.cache.len()
            invariant
                i <= self.cache@.len(),
                forall|j: int| 0 <= j < i ==> #[trigger] self.cache@[j].0@ != key@,
            decreases self.cache@.len() - i,
        {
            if self.cache[i].0 == *key {
                return Some(i);
            }
            i = i + 1;
        }
        None
    }

    /// The remembered path of an icon, if any.
    pub fn cached(&self, name: &str, theme: Option<&str>) -> (r: Option<String>)
        requires
            self.wf(),
        ensures
            ({
                let k = spec_cache_key(name@, opt_view(theme));
                &&& self.map().contains_key(k) ==> (r matches Some(p) && p@ == self.map()[k].0)
                &&& !self.map().contains_key(k) ==> r.is_none()
            }),
    {
        let key = cache_key(name, theme);
        match self.find(&key) {
            Some(i) => {
                proof {
                    self.lemma_map_at(i as int);
                }
                Some(self.cache[i].1.path.clone())
            },
            None => None,
        }
    }

    /// Remembers `path` under `key`, stored at `now`, replacing any entry.
    pub fn remember(&mut self, key: String, path: String, now: u64)
        requires
            old(self).wf(),
        ensures
            final(self).wf(),
            final(self).map() == old(self).map().insert(key@, (path@, now)),
    {
        let ghost k = key@;
        let ghost pv = path@;
        match self.find(&key) {
            Some(i) => {
                self.cache.set(i, (key, IconCacheEntry { path, last_used_ms: now }));
                proof {
                    assert(keys_of(self.cache@) =~= keys_of(old(self).cache@));
                    assert forall|s: Seq<char>| #[trigger] self.map().contains_key(s) <==> old(self).map().insert(k, (pv, now)).contains_key(s) by {
                        if old(self).has(s) {
                            let j = choose|j: int| 0 <= j < old(self).cache@.len() && old(self).cache@[j].0@ == s;
                            assert(self.cache@[j].0@ == s);
                        }
                        if self.has(s) {
                            let j = choose|j: int| 0 <= j < self.cache@.len() && self.cache@[j].0@ == s;
                            assert(old(self).cache@[j].0@ == s);
                        }
                    }
                    assert forall|s: Seq<char>| self.map().contains_key(s) implies #[trigger] self.map()[s] == old(self).map().insert(k, (pv, now))[s] by {
                        let j = choose|j: int| 0 <= j < self.cache@.len() && self.cache@[j].0@ == s;
                        self.lemma_map_at(j);
                        if s != k {
                            old(self).lemma_map_at(j);
                        } else {
                            assert(keys_of(self.cache@)[j] == keys_of(self.cache@)[i as int]);
                        }
                    }
                    assert(self.map() =~= old(self).map().insert(k, (pv, now)));
                }
            },
            None => {
                self.cache.push((key, IconCacheEntry { path, last_used_ms: now }));
                proof {
                    assert(keys_of(self.cache@) =~= keys_of(old(self).cache@).push(k));
                    assert(!keys_of(old(self).cache@).contains(k)) by {
                        if keys_of(old(self).cache@).contains(k) {
                            let j = choose|j: int| 0 <= j < keys_of(old(self).cache@).len() && #[trigger] keys_of(old(self).cache@)[j] == k;
                            assert(old(self).cache@[j].0@ == k);
                        }
                    }
                    assert forall|s: Seq<char>| #[trigger] self.map().contains_key(s) <==> old(self).map().insert(k, (pv, now)).contains_key(s) by {
                        if old(self).has(s) {
                            let j = choose|j: int| 0 <= j < old(self).cache@.len() && old(self).cache@[j].0@ == s;
                            assert(self.cache@[j].0@ == s);
                        }
                        if s == k {
                            assert(self.cache@[self.cache@.len() - 1].0@ == s);
                        }
                        if self.has(s) && s != k {
                            let j = choose|j: int| 0 <= j < self.cache@.len() && self.cache@[j].0@ == s;
                            assert(old(self).cache@[j].0@ == s);
                        }
                    }
                    assert forall|s: Seq<char>| self.map().contains_key(s) implies #[trigger] self.map()[s] == old(self).map().insert(k, (pv, now))[s] by {
                        let j = choose|j: int| 0 <= j < self.cache@.len() && self.cache@[j].0@ == s;
                        self.lemma_map_at(j);
                        if s != k {
                            old(self).lemma_map_at(j);
                        } else {
                            self.lemma_map_at(self.cache@.len() - 1);
                        }
                    }
                    assert(self.map() =~= old(self).map().insert(k, (pv, now)));
                }
            },
        }
    }

    /// Forgets every entry that is no longer fresh at `now`.
    pub fn cleanup(&mut self, now: u64)
        requires
            old(self).wf(),
        ensures
            final(self).wf(),
            final(self).cache@ == old(self).cache@.filter(|p: (String, IconCacheEntry)| fresh(p.1.last_used_ms, now)),
    {
        let ghost o = self.cache@;
        let mut src: Vec<(String, IconCacheEntry)> = Vec::new();
        std::mem::swap(&mut src, &mut self.cache);
        let mut kept: Vec<(String, IconCacheEntry)> = Vec::new();
        let ghost mut n: int = 0;
        while src.len() > 0
            invariant
                0 <= n <= o.len(),
                keys_of(o).no_duplicates(),
                src@ == o.subrange(n, o.len() as int),
                kept@ == o.subrange(0, n).filter(|p: (String, IconCacheEntry)| fresh(p.1.last_used_ms, now)),
            decreases src@.len(),
        {
            let p = src.remove(0);
            proof {
                assert(p == o[n]);
                assert(o.subrange(0, n + 1).drop_last() =~= o.subrange(0, n));
                reveal_with_fuel(Seq::filter, 1);
            }
            let stored = p.1.last_used_ms;
            let age: u64 = if now >= stored { now - stored } else { 0 };
            if age < ICON_CACHE_TTL_MS {
                kept.push(p);
            }
            proof {
                n = n + 1;
                assert(src@ =~= o.subrange(n, o.len() as int));
            }
        }
        assert(o.subrange(0, o.len() as int) =~= o);
        self.cache = kept;
        proof {
            lemma_filter_keeps_unique_keys(o, |p: (String, IconCacheEntry)| fresh(p.1.last_used_ms, now));
        }
    }
}

/// Dropping entries keeps keys unique.
proof fn lemma_filter_keeps_unique_keys(o: Seq<(String, IconCacheEntry)>, pred: spec_fn((String, IconCacheEntry)) -> bool)
    requires
        keys_of(o).no_duplicates(),
    ensures
        keys_of(o.filter(pred)).no_duplicates(),
    decreases o.len(),
{
    reveal_with_fuel(Seq::filter, 1);
    if o.len() > 0 {
        let r = o.drop_last();
        assert(keys_of(r) =~= keys_of(o).drop_last());
        lemma_filter_keeps_unique_keys(r, pred);
        let fr = r.filter(pred);
        if pred(o.last()) {
            let f = fr.push(o.last());
            assert(o.filter(pred) == f);
            assert(keys_of(f) =~= keys_of(fr).push(o.last().0@));
            assert forall|a: int, b: int| 0 <= a < b < keys_of(f).len() implies keys_of(f)[a] != keys_of(f)[b] by {
                if b == keys_of(f).len() - 1 {
                    r.lemma_filter_contains_rev(pred, fr[a]);
                    let j = choose|j: int| 0 <= j < r.len() && r[j] == fr[a];
                    assert(keys_of(o)[j] == fr[a].0@);
                    assert(keys_of(o)[o.len() - 1] == o.last().0@);
                }
            }
        }
    }
}

/// After a cleanup every remembered icon is fresh, and every icon that was
/// fresh is still remembered.
pub proof fn law_cleanup_keeps_exactly_fresh(o: Seq<(String, IconCacheEntry)>, now: u64)
    ensures
        ({
            let f = o.filter(|p: (String, IconCacheEntry)| fresh(p.1.last_used_ms, now));
            &&& forall|i: int| 0 <= i < f.len() ==> fresh(#[trigger] f[i].1.last_used_ms, now) && o.contains(f[i])
            &&& forall|i: int| 0 <= i < o.len() && fresh(#[trigger] o[i].1.last_used_ms, now) ==> f.contains(o[i])
        }),
{
    let pred = |p: (String, IconCacheEntry)| fresh(p.1.last_used_ms, now);
    let f = o.filter(pred);
    assert forall|i: int| 0 <= i < f.len() implies fresh(#[trigger] f[i].1.last_used_ms, now) && o.contains(f[i]) by {
        o.lemma_filter_pred(pred, i);
        o.lemma_filter_contains_rev(pred, f[i]);
    }
    assert forall|i: int| 0 <= i < o.len() && fresh(#[trigger] o[i].1.last_used_ms, now) implies f.contains(o[i]) by {
        o.lemma_filter_contains(pred, i);
    }
}

/// The path of an icon: the remembered one if there is one; else `lookup`,
/// the path that the theme search found, which is then remembered.
pub fn get_icon_cached(loader: &mut IconLoader, name: &str, theme: Option<&str>, lookup: Option<String>, now: u64) -> (r: Option<String>)
    requires
        old(loader).wf(),
    ensures
        final(loader).wf(),
        ({
            let k = spec_cache_key(name@, opt_view(theme));
            &&& old(loader).map().contains_key(k) ==> (r matches Some(p) && p@ == old(loader).map()[k].0)
                && final(loader).map() == old(loader).map()
            &&& !old(loader).map().contains_key(k) ==> match lookup {
                Some(p) => (r matches Some(q) && q@ == p@) && final(loader).map() == old(loader).map().insert(k, (p@, now)),
                None => r.is_none() && final(loader).map() == old(loader).map(),
            }
        }),
{
    match loader.cached(name, theme) {
        Some(p) => Some(p),
        None => match lookup {
            Some(p) => {
                let key = cache_key(name, theme);
                let q = p.clone();
                loader.remember(key, p, now);
                Some(q)
            },
            None => None,
        },
    }
}

/// Forgets the icons that are no longer fresh.
pub fn cleanup_cache(loader: &mut IconLoader, now: u64)
    requires
        old(loader).wf(),
    ensures
        final(loader).wf(),
        final(loader).cache@ == old(loader).cache@.filter(|p: (String, IconCacheEntry)| fresh(p.1.last_used_ms, now)),
{
    loader.cleanup(now);
}

/// An icon to look up ahead of use: name and theme (`None` for the current theme).
pub type IconRequest = (String, Option<String>);

/// The view of a list of icon requests.
pub open spec fn requests_view(v: Seq<IconRequest>) -> Seq<(Seq<char>, Option<Seq<char>>)> {
    v.map_values(|r: IconRequest| (r.0@, match r.1 { Some(t) => Some(t@), None => None }))
}

fn breeze(name: &str) -> (r: IconRequest)
    ensures
        r.0@ == name@,
        r.1 matches Some(t) && t@ == "breeze"@,
{
    (name.to_owned(), Some("breeze".to_owned()))
}

fn current_theme(name: &str) -> (r: IconRequest)
    ensures
        r.0@ == name@,
        r.1.is_none(),
{
    (name.to_owned(), None)
}

/// The icons that the bar shows most, each in its usual theme.
pub open spec fn common_icons() -> Seq<(Seq<char>, Option<Seq<char>>)> {
    seq![
        ("back"@, Some("breeze"@)), ("settings"@, Some("breeze"@)),
        ("application-default-icon"@, None), ("dynamic-shortcuts"@, None),
        ("bolt"@, Some("breeze"@)), ("brightness-low"@, Some("breeze"@)),
        ("brightness-high"@, Some("breeze"@)), ("volume-up"@, Some("breeze"@)),
        ("volume-down"@, Some("breeze"@)), ("media-playback-pause"@, Some("breeze"@)),
    ]
}

/// Window classes of common applications, lower-cased, in the order listed
/// (the list names some applications in several spellings).
pub open spec fn common_app_classes() -> Seq<Seq<char>> {
    seq![
        "code"@, "code"@, "vscode"@, "firefox"@, "firefox"@,
        "chromium"@, "chromium"@, "chrome"@, "chrome"@, "alacritty"@, "alacritty"@,
        "terminal"@, "terminal"@, "gnome-terminal"@, "nautilus"@, "nautilus"@, "files"@,
        "discord"@, "discord"@, "spotify"@, "spotify"@, "steam"@, "steam"@, "obs"@, "obs"@,
        "gimp"@, "gimp"@, "inkscape"@, "inkscape"@, "blender"@, "blender"@,
        "thunderbird"@, "thunderbird"@, "libreoffice"@, "libreoffice"@, "vlc"@, "vlc"@,
    ]
}

/// For each application class, its icon in the breeze theme and its
/// "app-" icon in the current theme.
pub open spec fn app_icon_requests(classes: Seq<Seq<char>>) -> Seq<(Seq<char>, Option<Seq<char>>)>
    decreases classes.len(),
{
    if classes.len() == 0 {
        seq![]
    } else {
        app_icon_requests(classes.drop_last()) + seq![
            (classes.last(), Some("breeze"@)),
            ("app-"@ + classes.last(), None),
        ]
    }
}

/// Icons looked up a while after start.
pub open spec fn extended_icons() -> Seq<(Seq<char>, Option<Seq<char>>)> {
    seq![
        ("mic-off"@, Some("breeze"@)), ("input-keyboard-brightness"@, Some("breeze"@)),
        ("media-skip-backward"@, Some("breeze"@)), ("media-skip-forward"@, Some("breeze"@)),
        ("applications-other"@, Some("breeze"@)), ("utilities-terminal"@, Some("breeze"@)),
        ("color-picker"@, Some("breeze"@)), ("system-run"@, Some("breeze"@)),
        ("camera-record"@, Some("breeze"@)), ("camera-photo"@, Some("breeze"@)),
    ]
}

/// The application classes, lower-cased.
fn app_class_list() -> (v: Vec<&'static str>)
    ensures
        v@.map_values(|s: &str| s@) == common_app_classes(),
{
    let v = vec![
        "code", "code", "vscode", "firefox", "firefox",
        "chromium", "chromium", "chrome", "chrome", "alacritty", "alacritty",
        "terminal", "terminal", "gnome-terminal", "nautilus", "nautilus", "files",
        "discord", "discord", "spotify", "spotify", "steam", "steam", "obs", "obs",
        "gimp", "gimp", "inkscape", "inkscape", "blender", "blender",
        "thunderbird", "thunderbird", "libreoffice", "libreoffice", "vlc", "vlc",
    ];
    assert(v@.map_values(|s: &str| s@) =~= common_app_classes());
    v
}

/// The application icons to look up ahead of use.
pub fn preload_app_icons() -> (v: Vec<IconRequest>)
    ensures
        requests_view(v@) == app_icon_requests(common_app_classes()),
{
    let classes = app_class_list();
    let ghost cl = classes@.map_values(|s: &str| s@);
    let mut out: Vec<IconRequest> = Vec::new();
    let mut i: usize = 0;
    while i < classes.len()
        invariant
            i <= classes@.len(),
            cl == classes@.map_values(|s: &str| s@),
            requests_view(out@) == app_icon_requests(cl.subrange(0, i as int)),
        decreases classes@.len() - i,
    {
        let c = classes[i];
        let a = breeze(c);
        let mut n = String::from_str("app-");
        n.append(c);
        let b = (n, None);
        let ghost before = out@;
        out.push(a);
        out.push(b);
        proof {
            assert(cl.subrange(0, i + 1).drop_last() =~= cl.subrange(0, i as int));
            assert(cl.subrange(0, i + 1).last() == c@);
            assert(requests_view(out@) =~= requests_view(before) + seq![
                (c@, Some("breeze"@)),
                ("app-"@ + c@, None::<Seq<char>>),
            ]);
        }
        i = i + 1;
    }
    assert(cl.subrange(0, classes@.len() as int) =~= cl);
    out
}

/// The icons to look up at start: the common ones, then the applications'.
pub fn preload_common_icons() -> (v: Vec<IconRequest>)
    ensures
        requests_view(v@) == common_icons() + app_icon_requests(common_app_classes()),
{
    let mut v: Vec<IconRequest> = vec![
        breeze("back"), breeze("settings"), current_theme("application-default-icon"),
        current_theme("dynamic-shortcuts"), breeze("bolt"), breeze("brightness-low"),
        breeze("brightness-high"), breeze("volume-up"), breeze("volume-down"),
        breeze("media-playback-pause"),
    ];
    assert(requests_view(v@) =~= common_icons());
    let mut apps = preload_app_icons();
    let ghost a = apps@;
    v.append(&mut apps);
    assert(requests_view(v@) =~= common_icons() + requests_view(a));
    v
}

/// The icons to look up a while after start.
pub fn preload_extended_icons() -> (v: Vec<IconRequest>)
    ensures
        requests_view(v@) == extended_icons(),
{
    let v: Vec<IconRequest> = vec![
        breeze("mic-off"), breeze("input-keyboard-brightness"), breeze("media-skip-backward"),
        breeze("media-skip-forward"), breeze("applications-other"), breeze("utilities-terminal"),
        breeze("color-picker"), breeze("system-run"), breeze("camera-record"),
        breeze("camera-photo"),
    ];
    assert(requests_view(v@) =~= extended_icons());
    v
}

/// A path remembered under a key is what a lookup of that key gives back,
/// and other keys keep theirs.
pub proof fn law_remember_then_lookup(m: Map<Seq<char>, (Seq<char>, u64)>, k: Seq<char>, other: Seq<char>, path: Seq<char>, now: u64)
    requires
        other != k,
    ensures
        m.insert(k, (path, now))[k].0 == path,
        m.insert(k, (path, now)).contains_key(other) == m.contains_key(other),
        m.contains_key(other) ==> m.insert(k, (path, now))[other] == m[other],
{
}

} // verus!

verus! {

/// An icon's file name in a format: "name.ext".
pub open spec fn icon_file(name: Seq<char>, ext: Seq<char>) -> Seq<char> {
    name + "."@ + ext
}

/// The paths tried in one directory of a theme: for each format (SVG, PNG,
/// XPM), the copy in the user's overlay of the theme, then the theme's own.
pub open spec fn dir_candidates(overlay: Seq<char>, base: Seq<char>, dir: Seq<char>, name: Seq<char>) -> Seq<Seq<char>> {
    let od = spec_path_join(overlay, dir);
    let bd = spec_path_join(base, dir);
    seq![
        spec_path_join(od, icon_file(name, "svg"@)),
        spec_path_join(bd, icon_file(name, "svg"@)),
        spec_path_join(od, icon_file(name, "png"@)),
        spec_path_join(bd, icon_file(name, "png"@)),
        spec_path_join(od, icon_file(name, "xpm"@)),
        spec_path_join(bd, icon_file(name, "xpm"@)),
    ]
}

/// The paths tried in a theme's directories, in order.
pub open spec fn theme_candidates(overlay: Seq<char>, base: Seq<char>, dirs: Seq<Seq<char>>, name: Seq<char>) -> Seq<Seq<char>>
    decreases dirs.len(),
{
    if dirs.len() == 0 {
        Seq::empty()
    } else {
        theme_candidates(overlay, base, dirs.drop_last(), name) + dir_candidates(overlay, base, dirs.last(), name)
    }
}

/// The views of a list of strings.
pub open spec fn views(v: Seq<String>) -> Seq<Seq<char>> {
    v.map_values(|s: String| s@)
}

fn icon_file_name(name: &str, ext: &str) -> (r: String)
    ensures
        r@ == icon_file(name@, ext@),
{
    let mut r = String::from_str(name);
    r.append(".");
    r.append(ext);
    r
}

fn dir_paths(overlay: &str, base: &str, dir: &str, name: &str) -> (r: Vec<String>)
    ensures
        views(r@) == dir_candidates(overlay@, base@, dir@, name@),
{
    let od = path_join(overlay, dir);
    let bd = path_join(base, dir);
    let svg = icon_file_name(name, "svg");
    let png = icon_file_name(name, "png");
    let xpm = icon_file_name(name, "xpm");
    let r = vec![
        path_join(od.as_str(), svg.as_str()),
        path_join(bd.as_str(), svg.as_str()),
        path_join(od.as_str(), png.as_str()),
        path_join(bd.as_str(), png.as_str()),
        path_join(od.as_str(), xpm.as_str()),
        path_join(bd.as_str(), xpm.as_str()),
    ];
    assert(views(r@) =~= dir_candidates(overlay@, base@, dir@, name@));
    r
}

/// The files to look for, in order, when searching a theme for an icon:
/// `overlay` is the user's overlay of the theme, `base` the theme's own
/// directory and `directories` the theme's "Directories" setting, a
/// ','-separated list.
pub fn icon_candidates(overlay: &str, base: &str, directories: &str, name: &str) -> (r: Vec<String>)
    ensures
        views(r@) == theme_candidates(overlay@, base@, split(directories@, ','), name@),
{
    let dirs = split_on(directories, ',');
    let ghost ds = views(dirs@);
    let mut out: Vec<String> = Vec::new();
    let mut i: usize = 0;
    assert(views(out@) =~= theme_candidates(overlay@, base@, ds.subrange(0, 0), name@));
    while i < dirs.len()
        invariant
            i <= dirs@.len(),
            ds == views(dirs@),
            ds == split(directories@, ','),
            views(out@) == theme_candidates(overlay@, base@, ds.subrange(0, i as int), name@),
        decreases dirs@.len() - i,
    {
        let mut more = dir_paths(overlay, base, dirs[i].as_str(), name);
        let ghost before = out@;
        let ghost added = more@;
        out.append(&mut more);
        proof {
            assert(ds.subrange(0, i + 1).drop_last() =~= ds.subrange(0, i as int));
            assert(ds.subrange(0, i + 1).last() == dirs@[i as int]@);
            assert(views(out@) =~= views(before) + views(added));
        }
        i = i + 1;
    }
    assert(ds.subrange(0, ds.len() as int) =~= ds);
    out
}

} // verus!

use vstd::prelude::*;
use crate::names::{
    name_variants, bin_suffix, git_suffix, ends_with, first_hyphen,
    prefix_before_hyphen, replace_hyphens, trim_suffix,
};

verus! {

/// The icon directories searched, highest priority first. Each ends with a
/// path separator.
pub open spec fn icon_dirs() -> Seq<Seq<char>> {
    seq![
        "/usr/share/pixmaps/"@,
        "/usr/share/icons/hicolor/48x48/apps/"@,
        "/usr/share/icons/hicolor/64x64/apps/"@,
        "/usr/share/icons/hicolor/128x128/apps/"@,
        "/usr/share/icons/hicolor/256x256/apps/"@,
        "/usr/share/icons/hicolor/scalable/apps/"@,
        "/usr/share/icons/breeze/apps/48/"@,
        "/usr/share/icons/gnome/48x48/apps/"@,
    ]
}

/// The icon file extensions tried in each directory, in order.
pub open spec fn icon_extensions() -> Seq<Seq<char>> {
    seq!["png"@, "svg"@, "xpm"@]
}

/// The generic icon shown for a package without one of its own.
pub open spec fn default_icon_path() -> Seq<char> {
    "/usr/share/icons/hicolor/48x48/mimetypes/application-x-executable.png"@
}

/// The path of the icon file `name.ext` in `dir`.
pub open spec fn icon_file(dir: Seq<char>, name: Seq<char>, ext: Seq<char>) -> Seq<char> {
    dir + name + seq!['.'] + ext
}

/// The names tried for a package: its own name, then its variants.
pub open spec fn tried_names(name: Seq<char>) -> Seq<Seq<char>> {
    seq![name] + name_variants(name)
}

/// The path tried for directory `d`, extension `e` and name `v` of `tried_names`.
pub open spec fn candidate(dirs: Seq<Seq<char>>, name: Seq<char>, d: int, e: int, v: int) -> Seq<char> {
    icon_file(dirs[d], tried_names(name)[v], icon_extensions()[e])
}

/// `(d, e, v)` indexes a directory, an extension and a tried name.
pub open spec fn in_space(dirs: Seq<Seq<char>>, name: Seq<char>, d: int, e: int, v: int) -> bool {
    &&& 0 <= d < dirs.len()
    &&& 0 <= e < icon_extensions().len()
    &&& 0 <= v < tried_names(name).len()
}

/// `(d1, e1, v1)` is tried before `(d2, e2, v2)`: directories first, then
/// extensions, then names.
pub open spec fn precedes(d1: int, e1: int, v1: int, d2: int, e2: int, v2: int) -> bool {
    d1 < d2 || (d1 == d2 && (e1 < e2 || (e1 == e2 && v1 < v2)))
}

/// `Option<String>` seen as an optional character sequence.
pub open spec fn opt_view(o: Option<String>) -> Option<Seq<char>> {
    match o {
        Some(s) => Some(s@),
        None => None,
    }
}

/// The probe `f` may answer `b` for the path `path`.
pub open spec fn probe_says<F: Fn(&str) -> bool>(f: F, path: Seq<char>, b: bool) -> bool {
    exists|p: &str| p@ == path && #[trigger] call_ensures(f, (p,), b)
}

/// `r` is what a search of `dirs` for `name` gives when `probe` tells which
/// paths exist: the first candidate, in the order of `precedes`, that was found,
/// or nothing when every candidate was missing.
pub open spec fn search_outcome(
    dirs: Seq<Seq<char>>,
    name: Seq<char>,
    r: Option<Seq<char>>,
    probe: spec_fn(Seq<char>, bool) -> bool,
) -> bool {
    match r {
        Some(p) => exists|d: int, e: int, v: int|
            {
                &&& #[trigger] in_space(dirs, name, d, e, v)
                &&& p == candidate(dirs, name, d, e, v)
                &&& probe(p, true)
                &&& forall|d2: int, e2: int, v2: int|
                    #[trigger] in_space(dirs, name, d2, e2, v2) && precedes(d2, e2, v2, d, e, v)
                        ==> probe(candidate(dirs, name, d2, e2, v2), false)
            },
        None => forall|d: int, e: int, v: int|
            #[trigger] in_space(dirs, name, d, e, v) ==> probe(candidate(dirs, name, d, e, v), false),
    }
}

/// One resolution of `name`: a remembered answer is returned as it is and
/// nothing changes; otherwise the search's answer is returned and remembered
/// under `name` alone.
pub open spec fn resolve_outcome(
    dirs: Seq<Seq<char>>,
    cache0: Map<Seq<char>, Option<Seq<char>>>,
    name: Seq<char>,
    r: Option<Seq<char>>,
    cache1: Map<Seq<char>, Option<Seq<char>>>,
    probe: spec_fn(Seq<char>, bool) -> bool,
) -> bool {
    if cache0.contains_key(name) {
        r == cache0[name] && cache1 == cache0
    } else {
        cache1 == cache0.insert(name, r) && search_outcome(dirs, name, r, probe)
    }
}

/// A probe about which nothing is known: any answer for any path.
pub open spec fn any_answer() -> spec_fn(Seq<char>, bool) -> bool {
    |path: Seq<char>, b: bool| true
}

/// A search outcome stays an outcome when nothing is known of the probe.
proof fn lemma_search_any_probe(
    dirs: Seq<Seq<char>>,
    name: Seq<char>,
    r: Option<Seq<char>>,
    probe: spec_fn(Seq<char>, bool) -> bool,
)
    requires
        search_outcome(dirs, name, r, probe),
    ensures
        search_outcome(dirs, name, r, any_answer()),
{
    if let Some(p) = r {
        let (d, e, v) = choose|d: int, e: int, v: int|
            {
                &&& #[trigger] in_space(dirs, name, d, e, v)
                &&& p == candidate(dirs, name, d, e, v)
                &&& probe(p, true)
                &&& forall|d2: int, e2: int, v2: int|
                    #[trigger] in_space(dirs, name, d2, e2, v2) && precedes(d2, e2, v2, d, e, v)
                        ==> probe(candidate(dirs, name, d2, e2, v2), false)
            };
        assert(in_space(dirs, name, d, e, v));
    }
}

/// The extension with index `e`.
fn extension(e: usize) -> (r: &'static str)
    requires
        e < 3,
    ensures
        r@ == icon_extensions()[e as int],
{
    if e == 0 {
        "png"
    } else if e == 1 {
        "svg"
    } else {
        "xpm"
    }
}

/// Builds `{dir}{name}.{ext}`.
pub fn icon_path(dir: &str, name: &str, ext: &str) -> (r: String)
    ensures
        r@ == icon_file(dir@, name@, ext@),
{
    let mut out = String::from_str(dir);
    out.append(name);
    let dot = ".";
    proof {
        reveal_strlit(".");
    }
    out.append(dot);
    out.append(ext);
    out
}

/// Relies on std::path::Path::exists: whether a file is at `path` now. What it
/// answers depends on the disk, so nothing is stated of it.
#[verifier::external_body]
fn path_exists(path: &str) -> (r: bool) {
    std::path::Path::new(path).exists()
}

/// Resolves package names to icon files and remembers every answer.
pub struct IconManager {
    icon_paths: Vec<String>,
    icon_cache: Vec<(String, Option<String>)>,
    cache_map: Ghost<Map<Seq<char>, Option<Seq<char>>>>,
}

impl IconManager {
    /// The directories searched, highest priority first.
    pub closed spec fn dirs(&self) -> Seq<Seq<char>> {
        self.icon_paths@.map_values(|s: String| s@)
    }

    /// The remembered answers, by package name.
    pub closed spec fn cache(&self) -> Map<Seq<char>, Option<Seq<char>>> {
        self.cache_map@
    }

    /// The stored entries have unique keys and are exactly the remembered answers.
    pub closed spec fn wf(&self) -> bool {
        let entries = self.icon_cache@;
        &&& forall|i: int|
            0 <= i < entries.len() ==> #[trigger] self.cache_map@.contains_key(entries[i].0@)
                && self.cache_map@[entries[i].0@] == opt_view(entries[i].1)
        &&& forall|k: Seq<char>|
            #[trigger] self.cache_map@.contains_key(k) ==> exists|i: int|
                0 <= i < entries.len() && #[trigger] entries[i].0@ == k
        &&& forall|i: int, j: int|
            0 <= i < j < entries.len() ==> #[trigger] entries[i].0@ != #[trigger] entries[j].0@
    }

    /// A manager over the standard icon directories with nothing remembered.
    pub fn new() -> (r: Self)
        ensures
            r.wf(),
            r.dirs() == icon_dirs(),
            r.cache() == Map::<Seq<char>, Option<Seq<char>>>::empty(),
    {
        let mut icon_paths: Vec<String> = Vec::new();
        icon_paths.push(String::from_str("/usr/share/pixmaps/"));
        icon_paths.push(String::from_str("/usr/share/icons/hicolor/48x48/apps/"));
        icon_paths.push(String::from_str("/usr/share/icons/hicolor/64x64/apps/"));
        icon_paths.push(String::from_str("/usr/share/icons/hicolor/128x128/apps/"));
        icon_paths.push(String::from_str("/usr/share/icons/hicolor/256x256/apps/"));
        icon_paths.push(String::from_str("/usr/share/icons/hicolor/scalable/apps/"));
        icon_paths.push(String::from_str("/usr/share/icons/breeze/apps/48/"));
        icon_paths.push(String::from_str("/usr/share/icons/gnome/48x48/apps/"));
        let r = IconManager { icon_paths, icon_cache: Vec::new(), cache_map: Ghost(Map::empty()) };
        assert(r.dirs() =~= icon_dirs());
        r
    }

    /// The path of the generic icon.
    pub fn get_default_icon() -> (r: String)
        ensures
            r@ == default_icon_path(),
            r@.len() > 0,
    {
        proof {
            reveal_strlit("/usr/share/icons/hicolor/48x48/mimetypes/application-x-executable.png");
        }
        String::from_str("/usr/share/icons/hicolor/48x48/mimetypes/application-x-executable.png")
    }

    /// The remembered answer for `package_name`, if there is one.
    fn cache_lookup(&self, package_name: &str) -> (r: Option<Option<String>>)
        requires
            self.wf(),
        ensures
            match r {
                Some(v) => self.cache().contains_key(package_name@) && opt_view(v)
                    == self.cache()[package_name@],
                None => !self.cache().contains_key(package_name@),
            },
    {
        let key = String::from_str(package_name);
        let mut i: usize = 0;
        while i < self.icon_cache.len()
            invariant
                self.wf(),
                key@ == package_name@,
                i <= self.icon_cache@.len(),
                forall|j: int| 0 <= j < i ==> self.icon_cache@[j].0@ != package_name@,
            decreases self.icon_cache@.len() - i,
        {
            if self.icon_cache[i].0 == key {
                let found = match &self.icon_cache[i].1 {
                    Some(p) => Some(p.clone()),
                    None => None,
                };
                assert(self.cache_map@.contains_key(self.icon_cache@[i as int].0@));
                return Some(found);
            }
            i = i + 1;
        }
        None
    }

    /// Remembers `found` as the answer for `package_name`.
    fn cache_insert(&mut self, package_name: &str, found: Option<String>)
        requires
            old(self).wf(),
            !old(self).cache().contains_key(package_name@),
        ensures
            final(self).wf(),
            final(self).dirs() == old(self).dirs(),
            final(self).cache() == old(self).cache().insert(package_name@, opt_view(found)),
    {
        let ghost v = opt_view(found);
        let ghost old_entries = self.icon_cache@;
        self.icon_cache.push((String::from_str(package_name), found));
        self.cache_map = Ghost(self.cache_map@.insert(package_name@, v));
        let ghost entries = self.icon_cache@;
        assert forall|i: int| 0 <= i < entries.len() implies #[trigger] self.cache_map@.contains_key(
            entries[i].0@,
        ) && self.cache_map@[entries[i].0@] == opt_view(entries[i].1) by {
            if i < old_entries.len() {
                assert(entries[i] == old_entries[i]);
            }
        }
        assert forall|k: Seq<char>| #[trigger] self.cache_map@.contains_key(k) implies exists|i: int|
            0 <= i < entries.len() && #[trigger] entries[i].0@ == k by {
            if k == package_name@ {
                assert(entries[old_entries.len() as int].0@ == k);
            } else {
                let i = choose|i: int| 0 <= i < old_entries.len() && #[trigger] old_entries[i].0@ == k;
                assert(entries[i] == old_entries[i]);
            }
        }
        assert forall|i: int, j: int| 0 <= i < j < entries.len() implies #[trigger] entries[i].0@
            != #[trigger] entries[j].0@ by {
            assert(entries[i] == old_entries[i]);
            if j < old_entries.len() {
                assert(entries[j] == old_entries[j]);
            } else {
                assert(old(self).cache_map@.contains_key(old_entries[i].0@));
            }
        }
    }

    /// Resolves `package_name` with `is_file` telling whether a path exists.
    ///
    /// A remembered answer is returned without calling `is_file` at all (the
    /// probe need not be callable then). Otherwise the directories are tried
    /// in order, in each the extensions in order, and for each pair first the
    /// package's own name and then its variants; the first path found is the
    /// answer, and the answer (found or not) is remembered.
    pub fn find_icon_with<F: Fn(&str) -> bool>(&mut self, package_name: &str, is_file: F) -> (r:
        Option<String>)
        requires
            old(self).wf(),
            !old(self).cache().contains_key(package_name@) ==> forall|p: &str|
                call_requires(is_file, (p,)),
        ensures
            final(self).wf(),
            final(self).dirs() == old(self).dirs(),
            resolve_outcome(
                old(self).dirs(),
                old(self).cache(),
                package_name@,
                opt_view(r),
                final(self).cache(),
                |path: Seq<char>, b: bool| probe_says(is_file, path, b),
            ),
    {
        if let Some(cached) = self.cache_lookup(package_name) {
            return cached;
        }
        let ghost dirs = self.dirs();
        let ghost name = package_name@;
        let ghost probe = |path: Seq<char>, b: bool| probe_says(is_file, path, b);
        let ghost nv = name_variants(name);
        let mut d: usize = 0;
        while d < self.icon_paths.len()
            invariant
                self.wf(),
                self.dirs() == dirs,
                self.cache() == old(self).cache(),
                !self.cache().contains_key(name),
                name == package_name@,
                dirs == old(self).dirs(),
                nv == name_variants(name),
                probe == (|path: Seq<char>, b: bool| probe_says(is_file, path, b)),
                forall|p: &str| call_requires(is_file, (p,)),
                d <= dirs.len(),
                forall|d2: int, e2: int, v2: int|
                    #[trigger] in_space(dirs, name, d2, e2, v2) && d2 < d ==> probe(
                        candidate(dirs, name, d2, e2, v2),
                        false,
                    ),
            decreases dirs.len() - d,
        {
            let mut e: usize = 0;
            while e < 3
                invariant
                    self.wf(),
                    self.dirs() == dirs,
                    self.cache() == old(self).cache(),
                    !self.cache().contains_key(name),
                    name == package_name@,
                    dirs == old(self).dirs(),
                    nv == name_variants(name),
                    probe == (|path: Seq<char>, b: bool| probe_says(is_file, path, b)),
                    forall|p: &str| call_requires(is_file, (p,)),
                    d < dirs.len(),
                    e <= 3,
                    forall|d2: int, e2: int, v2: int|
                        #[trigger] in_space(dirs, name, d2, e2, v2) && precedes(d2, e2, v2, d as int, e as int, 0)
                            ==> probe(candidate(dirs, name, d2, e2, v2), false),
                decreases 3 - e,
            {
                let ext = extension(e);
                assert(self.icon_paths@[d as int]@ == dirs[d as int]);
                let exact = icon_path(self.icon_paths[d].as_str(), package_name, ext);
                assert(exact@ == candidate(dirs, name, d as int, e as int, 0));
                let found = is_file(exact.as_str());
                assert(probe(exact@, found));
                if found {
                    assert(in_space(dirs, name, d as int, e as int, 0));
                    self.cache_insert(package_name, Some(exact.clone()));
                    return Some(exact);
                }
                let derived = self.find_derived_icon(
                    package_name,
                    self.icon_paths[d].as_str(),
                    ext,
                    &is_file,
                );
                assert forall|v: int| 0 <= v < nv.len() implies #[trigger] candidate(
                    dirs,
                    name,
                    d as int,
                    e as int,
                    v + 1,
                ) == icon_file(dirs[d as int], nv[v], icon_extensions()[e as int]) by {
                    assert(tried_names(name)[v + 1] == nv[v]);
                }
                match derived {
                    Some(icon) => {
                        let ghost v = choose|v: int|
                            {
                                &&& 0 <= v < nv.len()
                                &&& icon@ == icon_file(dirs[d as int], nv[v], ext@)
                                &&& probe_says(is_file, icon@, true)
                                &&& forall|v2: int|
                                    0 <= v2 < v ==> probe_says(
                                        is_file,
                                        #[trigger] icon_file(dirs[d as int], nv[v2], ext@),
                                        false,
                                    )
                            };
                        assert(candidate(dirs, name, d as int, e as int, v + 1) == icon@);
                        assert(in_space(dirs, name, d as int, e as int, v + 1));
                        assert forall|d2: int, e2: int, v2: int|
                            #[trigger] in_space(dirs, name, d2, e2, v2) && precedes(
                                d2,
                                e2,
                                v2,
                                d as int,
                                e as int,
                                v + 1,
                            ) implies probe(candidate(dirs, name, d2, e2, v2), false) by {
                            if d2 == d && e2 == e && v2 > 0 {
                                assert(candidate(dirs, name, d2, e2, (v2 - 1) + 1) == icon_file(
                                    dirs[d as int],
                                    nv[v2 - 1],
                                    ext@,
                                ));
                            }
                        }
                        self.cache_insert(package_name, Some(icon.clone()));
                        return Some(icon);
                    },
                    None => {
                        assert forall|d2: int, e2: int, v2: int|
                            #[trigger] in_space(dirs, name, d2, e2, v2) && precedes(
                                d2,
                                e2,
                                v2,
                                d as int,
                                e as int + 1,
                                0,
                            ) implies probe(candidate(dirs, name, d2, e2, v2), false) by {
                            if d2 == d && e2 == e && v2 > 0 {
                                assert(candidate(dirs, name, d2, e2, (v2 - 1) + 1) == icon_file(
                                    dirs[d as int],
                                    nv[v2 - 1],
                                    ext@,
                                ));
                            }
                        }
                    },
                }
                e = e + 1;
            }
            d = d + 1;
        }
        self.cache_insert(package_name, None);
        None
    }

    /// Resolves `package_name` against the files on disk; see `find_icon_with`.
    /// What the disk holds is not known here, so of a fresh search this states
    /// only that the answer is one of the candidate paths, and that it is
    /// remembered.
    pub fn find_icon_for_package(&mut self, package_name: &str) -> (r: Option<String>)
        requires
            old(self).wf(),
        ensures
            final(self).wf(),
            final(self).dirs() == old(self).dirs(),
            resolve_outcome(
                old(self).dirs(),
                old(self).cache(),
                package_name@,
                opt_view(r),
                final(self).cache(),
                any_answer(),
            ),
    {
        let on_disk = |p: &str| path_exists(p);
        let ghost probe = |path: Seq<char>, b: bool| probe_says(on_disk, path, b);
        let r = self.find_icon_with(package_name, on_disk);
        proof {
            if !old(self).cache().contains_key(package_name@) {
                lemma_search_any_probe(
                    old(self).dirs(),
                    package_name@,
                    opt_view(r),
                    probe,
                );
            }
        }
        r
    }

    /// The first variant of `package_name` whose file `{base_path}{variant}.{ext}`
    /// the probe finds, trying the variants in order.
    fn find_derived_icon<F: Fn(&str) -> bool>(
        &self,
        package_name: &str,
        base_path: &str,
        ext: &str,
        is_file: &F,
    ) -> (r: Option<String>)
        requires
            forall|p: &str| call_requires(*is_file, (p,)),
        ensures
            match r {
                Some(p) => exists|v: int|
                    {
                        &&& 0 <= v < name_variants(package_name@).len()
                        &&& p@ == icon_file(base_path@, name_variants(package_name@)[v], ext@)
                        &&& probe_says(*is_file, p@, true)
                        &&& forall|v2: int|
                            0 <= v2 < v ==> probe_says(
                                *is_file,
                                #[trigger] icon_file(base_path@, name_variants(package_name@)[v2], ext@),
                                false,
                            )
                    },
                None => forall|v: int|
                    0 <= v < name_variants(package_name@).len() ==> probe_says(
                        *is_file,
                        #[trigger] icon_file(base_path@, name_variants(package_name@)[v], ext@),
                        false,
                    ),
            },
    {
        let variants = self.get_name_variants(package_name);
        let ghost nv = name_variants(package_name@);
        let mut i: usize = 0;
        while i < variants.len()
            invariant
                forall|p: &str| call_requires(*is_file, (p,)),
                nv == name_variants(package_name@),
                variants@.len() == nv.len(),
                forall|j: int| 0 <= j < variants@.len() ==> variants@[j]@ == nv[j],
                i <= variants@.len(),
                forall|v2: int|
                    0 <= v2 < i ==> probe_says(
                        *is_file,
                        #[trigger] icon_file(base_path@, nv[v2], ext@),
                        false,
                    ),
            decreases variants@.len() - i,
        {
            let icon = icon_path(base_path, variants[i].as_str(), ext);
            let found = is_file(icon.as_str());
            assert(probe_says(*is_file, icon@, found));
            if found {
                assert(icon@ == icon_file(base_path@, nv[i as int], ext@));
                return Some(icon);
            }
            i = i + 1;
        }
        None
    }

    /// The names tried after the package's own name, in order.
    pub fn get_name_variants(&self, package_name: &str) -> (r: Vec<String>)
        ensures
            r@.len() == name_variants(package_name@).len(),
            forall|i: int| 0 <= i < r@.len() ==> r@[i]@ == name_variants(package_name@)[i],
    {
        let mut variants: Vec<String> = Vec::new();
        if first_hyphen(package_name).is_some() {
            variants.push(replace_hyphens(package_name));
            variants.push(prefix_before_hyphen(package_name));
        }
        let bin = "-bin";
        let git = "-git";
        proof {
            reveal_strlit("-bin");
            reveal_strlit("-git");
            assert(bin@ =~= bin_suffix());
            assert(git@ =~= git_suffix());
        }
        if ends_with(package_name, bin) || ends_with(package_name, git) {
            let without_bin = trim_suffix(package_name, bin);
            variants.push(trim_suffix(without_bin.as_str(), git));
        }
        assert(variants@.map_values(|s: String| s@) =~= name_variants(package_name@));
        variants
    }
}

} // verus!

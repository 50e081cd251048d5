//! The package list: for each platform, where the download of each version
//! lies below a common address.

use crate::error::Error;
use crate::table::VersionTable;
use crate::text::chars_of;
use crate::version::{same_text, GodotVersion};
use vstd::prelude::*;
use vstd::string::*;

verus! {

/// The platforms for which the package list holds downloads.
#[derive(Clone, Copy, PartialEq, Eq, Structural, Hash, Debug)]
pub enum Platform {
    Win32,
    Win64,
    LinuxX86_32,
    LinuxX86_64,
    MacOs,
}

/// The tag that names a platform.
pub open spec fn platform_tag(platform: Platform) -> Seq<char> {
    match platform {
        Platform::Win32 => "win32"@,
        Platform::Win64 => "win64"@,
        Platform::LinuxX86_32 => "linux_x86_32"@,
        Platform::LinuxX86_64 => "linux_x86_64"@,
        Platform::MacOs => "macos"@,
    }
}

/// The platform that a tag names, if it names one.
pub open spec fn platform_of_tag(tag: Seq<char>) -> Option<Platform> {
    if tag == "win32"@ {
        Some(Platform::Win32)
    } else if tag == "win64"@ {
        Some(Platform::Win64)
    } else if tag == "linux_x86_32"@ {
        Some(Platform::LinuxX86_32)
    } else if tag == "linux_x86_64"@ {
        Some(Platform::LinuxX86_64)
    } else if tag == "macos"@ {
        Some(Platform::MacOs)
    } else {
        None
    }
}

/// Each platform is the one that its own tag names.
pub proof fn lemma_platform_tag_roundtrip(platform: Platform)
    ensures
        platform_of_tag(platform_tag(platform)) == Some(platform),
{
    reveal_strlit("win32");
    reveal_strlit("win64");
    reveal_strlit("linux_x86_32");
    reveal_strlit("linux_x86_64");
    reveal_strlit("macos");
    match platform {
        Platform::Win32 => {},
        Platform::Win64 => {
            assert("win64"@[3] != "win32"@[3]);
        },
        Platform::LinuxX86_32 => {},
        Platform::LinuxX86_64 => {
            assert("linux_x86_64"@[10] != "linux_x86_32"@[10]);
        },
        Platform::MacOs => {
            assert("macos"@[0] != "win32"@[0]);
            assert("macos"@[0] != "win64"@[0]);
        },
    }
}

impl Platform {
    /// The tag that names the platform.
    pub fn tag(&self) -> (tag: &'static str)
        ensures
            tag@ == platform_tag(*self),
    {
        match self {
            Platform::Win32 => "win32",
            Platform::Win64 => "win64",
            Platform::LinuxX86_32 => "linux_x86_32",
            Platform::LinuxX86_64 => "linux_x86_64",
            Platform::MacOs => "macos",
        }
    }

    /// The platform that `tag` names, if it names one.
    pub fn from_tag(tag: &str) -> (platform: Option<Platform>)
        ensures
            platform == platform_of_tag(tag@),
    {
        let t = chars_of(tag);
        if same_text(&t, &chars_of("win32")) {
            Some(Platform::Win32)
        } else if same_text(&t, &chars_of("win64")) {
            Some(Platform::Win64)
        } else if same_text(&t, &chars_of("linux_x86_32")) {
            Some(Platform::LinuxX86_32)
        } else if same_text(&t, &chars_of("linux_x86_64")) {
            Some(Platform::LinuxX86_64)
        } else if same_text(&t, &chars_of("macos")) {
            Some(Platform::MacOs)
        } else {
            None
        }
    }
}

/// One line of a stored package list: the download of one version for one
/// platform, as a path below the list's address.
#[derive(Debug, Clone, PartialEq, Eq)]
pub struct PackageEntry {
    pub platform: Platform,
    pub version: GodotVersion,
    pub path: String,
}

/// A package list as it is stored. Nothing is promised of such a value
/// until `PackageList::load_or_new` has accepted it.
#[derive(Debug, Clone, PartialEq, Eq)]
pub struct PackageListData {
    pub prefix_url: String,
    pub entries: Vec<PackageEntry>,
}

/// No two of the entries are for the same version on the same platform.
pub open spec fn distinct_entries(entries: Seq<PackageEntry>) -> bool {
    forall|i: int, j: int|
        0 <= i < j < entries.len() ==> !((#[trigger] entries[i]).platform == (
        #[trigger] entries[j]).platform && entries[i].version == entries[j].version)
}

/// One of the entries is for `version` on `platform`.
pub open spec fn offers(entries: Seq<PackageEntry>, platform: Platform, version: GodotVersion) -> bool {
    exists|i: int|
        0 <= i < entries.len() && (#[trigger] entries[i]).platform == platform && entries[i].version
            == version
}

/// The address of the download that a table of paths below `prefix` gives
/// for `version`.
pub open spec fn url_spec(
    prefix: Seq<char>,
    paths: Map<GodotVersion, Seq<char>>,
    version: GodotVersion,
) -> Option<Seq<char>> {
    if paths.contains_key(version) {
        Some(prefix + paths[version])
    } else {
        None
    }
}

/// For each platform a table from versions to paths, and the address that
/// every path is relative to. A platform holds at most one path for a
/// version.
pub struct PackageList {
    prefix_url: String,
    win32: VersionTable,
    win64: VersionTable,
    linux_x86_32: VersionTable,
    linux_x86_64: VersionTable,
    macos: VersionTable,
}

impl PackageList {
    /// The address that every path is relative to.
    pub closed spec fn prefix(&self) -> Seq<char> {
        self.prefix_url@
    }

    /// The path of each version's download for `platform`.
    pub closed spec fn paths(&self, platform: Platform) -> Map<GodotVersion, Seq<char>> {
        match platform {
            Platform::Win32 => self.win32@,
            Platform::Win64 => self.win64@,
            Platform::LinuxX86_32 => self.linux_x86_32@,
            Platform::LinuxX86_64 => self.linux_x86_64@,
            Platform::MacOs => self.macos@,
        }
    }

    /// The five tables are well formed.
    pub closed spec fn wf(&self) -> bool {
        &&& self.win32.wf()
        &&& self.win64.wf()
        &&& self.linux_x86_32.wf()
        &&& self.linux_x86_64.wf()
        &&& self.macos.wf()
    }

    /// `entries` lists exactly the downloads of this package list.
    pub open spec fn holds_entries(&self, entries: Seq<PackageEntry>) -> bool {
        &&& forall|i: int|
            0 <= i < entries.len() ==> self.paths((#[trigger] entries[i]).platform).contains_key(
                entries[i].version,
            ) && self.paths(entries[i].platform)[entries[i].version] == entries[i].path@
        &&& forall|platform: Platform, version: GodotVersion| #[trigger]
            self.paths(platform).contains_key(version) ==> offers(entries, platform, version)
    }

    /// A package list without downloads, below the address `prefix_url`.
    pub fn new(prefix_url: String) -> (list: PackageList)
        ensures
            list.wf(),
            list.prefix() == prefix_url@,
            forall|platform: Platform|
                #[trigger] list.paths(platform) == Map::<GodotVersion, Seq<char>>::empty(),
    {
        PackageList {
            prefix_url,
            win32: VersionTable::new(),
            win64: VersionTable::new(),
            linux_x86_32: VersionTable::new(),
            linux_x86_64: VersionTable::new(),
            macos: VersionTable::new(),
        }
    }

    /// Sets the path of the download of `version` for `platform`, in place
    /// of an earlier one. Other platforms and versions stay as they were.
    pub fn insert(&mut self, platform: Platform, version: GodotVersion, path: String)
        requires
            old(self).wf(),
        ensures
            final(self).wf(),
            final(self).prefix() == old(self).prefix(),
            final(self).paths(platform) == old(self).paths(platform).insert(version, path@),
            forall|other: Platform|
                other != platform ==> #[trigger] final(self).paths(other) == old(self).paths(other),
    {
        match platform {
            Platform::Win32 => self.win32.insert(version, path),
            Platform::Win64 => self.win64.insert(version, path),
            Platform::LinuxX86_32 => self.linux_x86_32.insert(version, path),
            Platform::LinuxX86_64 => self.linux_x86_64.insert(version, path),
            Platform::MacOs => self.macos.insert(version, path),
        }
    }

    /// Whether the list holds a download of `version` for `platform`.
    pub fn has(&self, platform: Platform, version: &GodotVersion) -> (b: bool)
        requires
            self.wf(),
        ensures
            b == self.paths(platform).contains_key(*version),
    {
        match platform {
            Platform::Win32 => self.win32.contains(version),
            Platform::Win64 => self.win64.contains(version),
            Platform::LinuxX86_32 => self.linux_x86_32.contains(version),
            Platform::LinuxX86_64 => self.linux_x86_64.contains(version),
            Platform::MacOs => self.macos.contains(version),
        }
    }

    /// The address of the download of `version` for `platform`: the list's
    /// address followed by the path. `None` when the list holds no such
    /// download.
    pub fn url(&self, platform: Platform, version: &GodotVersion) -> (r: Option<String>)
        requires
            self.wf(),
        ensures
            match r {
                Some(url) => url_spec(self.prefix(), self.paths(platform), *version) == Some(url@),
                None => url_spec(self.prefix(), self.paths(platform), *version) is None,
            },
    {
        let path = match platform {
            Platform::Win32 => self.win32.get(version),
            Platform::Win64 => self.win64.get(version),
            Platform::LinuxX86_32 => self.linux_x86_32.get(version),
            Platform::LinuxX86_64 => self.linux_x86_64.get(version),
            Platform::MacOs => self.macos.get(version),
        };
        match path {
            Some(path) => {
                let mut url = self.prefix_url.clone();
                url.append(path.as_str());
                Some(url)
            },
            None => None,
        }
    }

    /// The address of the download of `version` for the platform that `tag`
    /// names. A tag that names no platform finds nothing, as does a version
    /// that the platform has no download for.
    pub fn resolve_url(&self, tag: &str, version: &GodotVersion) -> (r: Result<String, Error>)
        requires
            self.wf(),
        ensures
            match r {
                Ok(url) => {
                    &&& platform_of_tag(tag@) matches Some(platform)
                    &&& url_spec(self.prefix(), self.paths(platform), *version) == Some(url@)
                },
                Err(e) => {
                    &&& e == Error::VersionNotFound(*version)
                    &&& platform_of_tag(tag@) matches Some(platform) ==> url_spec(
                        self.prefix(),
                        self.paths(platform),
                        *version,
                    ) is None
                },
            },
    {
        match Platform::from_tag(tag) {
            None => Err(Error::VersionNotFound(*version)),
            Some(platform) => match self.url(platform, version) {
                Some(url) => Ok(url),
                None => Err(Error::VersionNotFound(*version)),
            },
        }
    }

    /// The package list to start from: an empty one where nothing was
    /// stored, else the stored one. A stored list that names a version twice
    /// for one platform is refused.
    pub fn load_or_new(stored: Option<PackageListData>) -> (r: Result<PackageList, Error>)
        ensures
            match stored {
                None => {
                    &&& r matches Ok(list)
                    &&& list.wf()
                    &&& list.prefix() == Seq::<char>::empty()
                    &&& list.holds_entries(Seq::<PackageEntry>::empty())
                },
                Some(data) => if distinct_entries(data.entries@) {
                    &&& r matches Ok(list)
                    &&& list.wf()
                    &&& list.prefix() == data.prefix_url@
                    &&& list.holds_entries(data.entries@)
                } else {
                    r is Err && r->Err_0 == Error::InvalidPackageList
                },
            },
    {
        let data = match stored {
            None => {
                let list = PackageList::new(String::new());
                proof {
                    assert forall|platform: Platform, version: GodotVersion|
                        !#[trigger] list.paths(platform).contains_key(version) by {
                        assert(list.paths(platform) == Map::<GodotVersion, Seq<char>>::empty());
                    }
                }
                return Ok(list);
            },
            Some(data) => data,
        };
        let mut list = PackageList::new(data.prefix_url.clone());
        let ghost entries = data.entries@;
        proof {
            assert forall|platform: Platform, version: GodotVersion|
                !#[trigger] list.paths(platform).contains_key(version) by {
                assert(list.paths(platform) == Map::<GodotVersion, Seq<char>>::empty());
            }
        }
        let mut i: usize = 0;
        while i < data.entries.len()
            invariant
                0 <= i <= entries.len(),
                stored == Some(data),
                entries == data.entries@,
                list.wf(),
                list.prefix() == data.prefix_url@,
                distinct_entries(entries.take(i as int)),
                list.holds_entries(entries.take(i as int)),
            decreases entries.len() - i,
        {
            let entry = &data.entries[i];
            if list.has(entry.platform, &entry.version) {
                proof {
                    let done = entries.take(i as int);
                    assert(offers(done, entry.platform, entry.version));
                    let j = choose|j: int|
                        0 <= j < done.len() && (#[trigger] done[j]).platform == entry.platform
                            && done[j].version == entry.version;
                    assert(entries[j].platform == entries[i as int].platform);
                    assert(entries[j].version == entries[i as int].version);
                }
                return Err(Error::InvalidPackageList);
            }
            let ghost before = list;
            list.insert(entry.platform, entry.version, entry.path.clone());
            proof {
                let done = entries.take(i as int);
                let next = entries.take(i + 1);
                assert forall|a: int, b: int| 0 <= a < b < next.len() implies !((
                #[trigger] next[a]).platform == (#[trigger] next[b]).platform && next[a].version
                    == next[b].version) by {
                    if b < i {
                        assert(!(done[a].platform == done[b].platform && done[a].version
                            == done[b].version));
                    } else {
                        assert(before.paths(done[a].platform).contains_key(done[a].version));
                    }
                }
                assert forall|a: int| 0 <= a < next.len() implies list.paths(
                    (#[trigger] next[a]).platform,
                ).contains_key(next[a].version) && list.paths(next[a].platform)[next[a].version]
                    == next[a].path@ by {
                    if a < i {
                        assert(before.paths(done[a].platform).contains_key(done[a].version));
                        if done[a].platform != entry.platform {
                            assert(list.paths(done[a].platform) == before.paths(done[a].platform));
                        }
                    }
                }
                assert forall|platform: Platform, version: GodotVersion| #[trigger]
                    list.paths(platform).contains_key(version) implies offers(
                    next,
                    platform,
                    version,
                ) by {
                    if platform == entry.platform && version == entry.version {
                        assert(next[i as int].platform == platform);
                    } else {
                        if platform != entry.platform {
                            assert(list.paths(platform) == before.paths(platform));
                        }
                        assert(before.paths(platform).contains_key(version));
                        assert(offers(done, platform, version));
                        let a = choose|a: int|
                            0 <= a < done.len() && (#[trigger] done[a]).platform == platform
                                && done[a].version == version;
                        assert(next[a].platform == platform);
                    }
                }
            }
            i += 1;
        }
        proof {
            assert(entries.take(i as int) =~= entries);
        }
        Ok(list)
    }
}

impl Default for PackageList {
    /// A package list without downloads and with an empty address.
    fn default() -> (list: PackageList)
        ensures
            list.wf(),
            list.prefix() == Seq::<char>::empty(),
            forall|platform: Platform|
                #[trigger] list.paths(platform) == Map::<GodotVersion, Seq<char>>::empty(),
    {
        PackageList::new(String::new())
    }
}

} // verus!

//! The registry of installed versions and of the version in use.

use crate::error::Error;
use crate::table::{lists, VersionTable};
use crate::version::GodotVersion;
use vstd::prelude::*;

verus! {

/// The record of one installation: a version and where its binary lies.
#[derive(Debug, Clone, PartialEq, Eq)]
pub struct GodotInfo {
    pub version: GodotVersion,
    pub bin_path: String,
}

/// A registry as it is stored: the records in a list, and the version in
/// use. Nothing is promised of such a value until `Manifest::load_or_new`
/// has accepted it.
#[derive(Debug, Clone, PartialEq, Eq)]
pub struct ManifestData {
    pub installed_apps: Vec<GodotInfo>,
    pub current_app: Option<GodotVersion>,
}

/// The installed versions, each with the place of its binary, and the
/// version in use, which is always one of the installed.
pub struct Manifest {
    installed_apps: VersionTable,
    current_app: Option<GodotVersion>,
}

/// No two of the records are for the same version.
pub open spec fn distinct_versions(records: Seq<GodotInfo>) -> bool {
    forall|i: int, j: int|
        0 <= i < j < records.len() ==> (#[trigger] records[i]).version != (
        #[trigger] records[j]).version
}

/// One of the records is for `version`.
pub open spec fn names(records: Seq<GodotInfo>, version: GodotVersion) -> bool {
    exists|i: int| 0 <= i < records.len() && (#[trigger] records[i]).version == version
}

/// `records` lists exactly the installations of `installed`, each once.
pub open spec fn holds_records(
    installed: Map<GodotVersion, Seq<char>>,
    records: Seq<GodotInfo>,
) -> bool {
    &&& distinct_versions(records)
    &&& forall|i: int|
        0 <= i < records.len() ==> installed.contains_key((#[trigger] records[i]).version)
            && installed[records[i].version] == records[i].bin_path@
    &&& forall|v: GodotVersion| #[trigger] installed.contains_key(v) ==> names(records, v)
}

/// A stored registry can be loaded: no version is recorded twice, and the
/// version in use is recorded.
pub open spec fn consistent(data: ManifestData) -> bool {
    &&& distinct_versions(data.installed_apps@)
    &&& data.current_app matches Some(v) ==> names(data.installed_apps@, v)
}

/// Two registries that hold the same records hold the same installations.
pub proof fn lemma_records_determine_installed(
    a: Map<GodotVersion, Seq<char>>,
    b: Map<GodotVersion, Seq<char>>,
    records: Seq<GodotInfo>,
)
    requires
        holds_records(a, records),
        holds_records(b, records),
    ensures
        a == b,
{
    assert forall|v: GodotVersion| a.contains_key(v) implies b.contains_key(v) && a[v] == b[v] by {
        assert(names(records, v));
        let i = choose|i: int| 0 <= i < records.len() && (#[trigger] records[i]).version == v;
        assert(b.contains_key(records[i].version));
    }
    assert forall|v: GodotVersion| b.contains_key(v) implies a.contains_key(v) by {
        assert(names(records, v));
        let i = choose|i: int| 0 <= i < records.len() && (#[trigger] records[i]).version == v;
        assert(a.contains_key(records[i].version));
    }
    assert(a =~= b);
}

impl Manifest {
    /// The place of the binary of each installed version.
    pub closed spec fn installed(&self) -> Map<GodotVersion, Seq<char>> {
        self.installed_apps@
    }

    /// The version in use, if one was chosen.
    pub closed spec fn current(&self) -> Option<GodotVersion> {
        self.current_app
    }

    /// The registry is well formed: the version in use is installed.
    pub closed spec fn wf(&self) -> bool {
        &&& self.installed_apps.wf()
        &&& self.current_app matches Some(v) ==> self.installed_apps@.contains_key(v)
    }

    /// In a well-formed registry the version in use is installed.
    pub proof fn lemma_current_is_installed(&self)
        requires
            self.wf(),
        ensures
            self.current() matches Some(v) ==> self.installed().contains_key(v),
    {
    }

    /// A registry with nothing installed and no version in use.
    pub fn new() -> (m: Manifest)
        ensures
            m.wf(),
            m.installed() == Map::<GodotVersion, Seq<char>>::empty(),
            m.current() is None,
    {
        Manifest { installed_apps: VersionTable::new(), current_app: None }
    }

    /// Whether `version` is installed.
    pub fn has(&self, version: &GodotVersion) -> (b: bool)
        requires
            self.wf(),
        ensures
            b == self.installed().contains_key(*version),
    {
        self.installed_apps.contains(version)
    }

    /// The record of `version`, if it is installed.
    pub fn get(&self, version: &GodotVersion) -> (r: Option<GodotInfo>)
        requires
            self.wf(),
        ensures
            match r {
                Some(info) => {
                    &&& self.installed().contains_key(*version)
                    &&& info.version == *version
                    &&& info.bin_path@ == self.installed()[*version]
                },
                None => !self.installed().contains_key(*version),
            },
    {
        match self.installed_apps.get(version) {
            Some(path) => Some(GodotInfo { version: *version, bin_path: path.clone() }),
            None => None,
        }
    }

    /// The version in use, if one was chosen.
    pub fn current_app(&self) -> (v: Option<GodotVersion>)
        ensures
            v == self.current(),
    {
        self.current_app
    }

    /// Records an installation, in place of an earlier record of the same
    /// version. Afterwards the version is installed, whatever was recorded
    /// before; other versions and the version in use stay as they were.
    pub fn install(&mut self, info: GodotInfo)
        requires
            old(self).wf(),
        ensures
            final(self).wf(),
            final(self).installed() == old(self).installed().insert(info.version, info.bin_path@),
            final(self).installed().contains_key(info.version),
            final(self).current() == old(self).current(),
    {
        self.installed_apps.insert(info.version, info.bin_path);
    }

    /// Makes `version` the version in use. A version that is not installed
    /// is refused, and the registry stays as it was.
    pub fn set_current(&mut self, version: &GodotVersion) -> (r: Result<(), Error>)
        requires
            old(self).wf(),
        ensures
            final(self).wf(),
            final(self).installed() == old(self).installed(),
            old(self).installed().contains_key(*version) ==> r is Ok && final(self).current()
                == Some(*version),
            !old(self).installed().contains_key(*version) ==> r == Err::<(), Error>(
                Error::NotInstalled(*version),
            ) && final(self).current() == old(self).current(),
    {
        if self.installed_apps.contains(version) {
            self.current_app = Some(*version);
            Ok(())
        } else {
            Err(Error::NotInstalled(*version))
        }
    }

    /// The records of all installations, each version once, in no
    /// particular order.
    pub fn records(&self) -> (records: Vec<GodotInfo>)
        requires
            self.wf(),
        ensures
            holds_records(self.installed(), records@),
    {
        let mut entries = self.installed_apps.entries();
        let ghost listed = entries@;
        let mut records: Vec<GodotInfo> = Vec::new();
        let n = entries.len();
        while entries.len() > 0
            invariant
                entries@.len() + records@.len() == n,
                n == listed.len(),
                forall|i: int|
                    0 <= i < entries@.len() ==> (#[trigger] entries@[i]) == listed[i],
                forall|i: int|
                    0 <= i < records@.len() ==> (#[trigger] records@[i]).version == listed[n - 1
                        - i].0 && records@[i].bin_path@ == listed[n - 1 - i].1@,
            decreases entries.len(),
        {
            let entry = entries.pop().unwrap();
            records.push(GodotInfo { version: entry.0, bin_path: entry.1 });
        }
        proof {
            let installed = self.installed();
            assert(lists(listed, installed));
            assert forall|i: int, j: int| 0 <= i < j < records@.len() implies (
            #[trigger] records@[i]).version != (#[trigger] records@[j]).version by {
                assert(listed[n - 1 - j].0 != listed[n - 1 - i].0);
            }
            assert forall|i: int| 0 <= i < records@.len() implies installed.contains_key(
                (#[trigger] records@[i]).version,
            ) && installed[records@[i].version] == records@[i].bin_path@ by {
                assert(installed.contains_key(listed[n - 1 - i].0));
            }
            assert forall|v: GodotVersion| #[trigger] installed.contains_key(v) implies names(
                records@,
                v,
            ) by {
                let i = choose|i: int| 0 <= i < listed.len() && (#[trigger] listed[i]).0 == v;
                assert(records@[n - 1 - i].version == v);
            }
        }
        records
    }

    /// The registry in the form in which it is stored.
    pub fn to_data(&self) -> (data: ManifestData)
        requires
            self.wf(),
        ensures
            consistent(data),
            holds_records(self.installed(), data.installed_apps@),
            data.current_app == self.current(),
    {
        let records = self.records();
        proof {
            if let Some(v) = self.current_app {
                assert(self.installed().contains_key(v));
            }
        }
        ManifestData { installed_apps: records, current_app: self.current_app }
    }

    /// The registry to start from: an empty one where nothing was stored,
    /// else the stored one. A stored registry that records a version twice,
    /// or whose version in use is not recorded, is refused.
    pub fn load_or_new(stored: Option<ManifestData>) -> (r: Result<Manifest, Error>)
        ensures
            match stored {
                None => {
                    &&& r matches Ok(m)
                    &&& m.wf()
                    &&& m.installed() == Map::<GodotVersion, Seq<char>>::empty()
                    &&& m.current() is None
                },
                Some(data) => if consistent(data) {
                    &&& r matches Ok(m)
                    &&& m.wf()
                    &&& holds_records(m.installed(), data.installed_apps@)
                    &&& m.current() == data.current_app
                } else {
                    r is Err && r->Err_0 == Error::InvalidManifest
                },
            },
    {
        let data = match stored {
            None => {
                return Ok(Manifest::new());
            },
            Some(data) => data,
        };
        let mut manifest = Manifest::new();
        let ghost records = data.installed_apps@;
        let mut i: usize = 0;
        while i < data.installed_apps.len()
            invariant
                0 <= i <= records.len(),
                stored == Some(data),
                records == data.installed_apps@,
                manifest.wf(),
                manifest.current() is None,
                holds_records(manifest.installed(), records.take(i as int)),
            decreases records.len() - i,
        {
            let record = &data.installed_apps[i];
            if manifest.has(&record.version) {
                proof {
                    assert(names(records.take(i as int), record.version));
                    let j = choose|j: int|
                        0 <= j < i && (#[trigger] records.take(i as int)[j]).version
                            == record.version;
                    assert(records[j].version == records[i as int].version);
                }
                return Err(Error::InvalidManifest);
            }
            let ghost before = manifest.installed();
            manifest.install(GodotInfo { version: record.version, bin_path: record.bin_path.clone() });
            proof {
                let done = records.take(i as int);
                let next = records.take(i + 1);
                let installed = manifest.installed();
                assert forall|a: int, b: int| 0 <= a < b < next.len() implies (
                #[trigger] next[a]).version != (#[trigger] next[b]).version by {
                    if b < i {
                        assert(done[a].version != done[b].version);
                    } else {
                        assert(before.contains_key(done[a].version));
                    }
                }
                assert forall|a: int| 0 <= a < next.len() implies installed.contains_key(
                    (#[trigger] next[a]).version,
                ) && installed[next[a].version] == next[a].bin_path@ by {
                    if a < i {
                        assert(before.contains_key(done[a].version));
                    }
                }
                assert forall|v: GodotVersion| #[trigger] installed.contains_key(v) implies names(
                    next,
                    v,
                ) by {
                    if v == record.version {
                        assert(next[i as int].version == v);
                    } else {
                        assert(before.contains_key(v));
                        assert(names(done, v));
                        let a = choose|a: int| 0 <= a < done.len() && (#[trigger] done[a]).version == v;
                        assert(next[a].version == v);
                    }
                }
            }
            i += 1;
        }
        proof {
            assert(records.take(i as int) =~= records);
        }
        match data.current_app {
            None => Ok(manifest),
            Some(version) => match manifest.set_current(&version) {
                Ok(()) => Ok(manifest),
                Err(_) => {
                    proof {
                        if names(records, version) {
                            let a = choose|a: int|
                                0 <= a < records.len() && (#[trigger] records[a]).version == version;
                            assert(manifest.installed().contains_key(records[a].version));
                        }
                    }
                    Err(Error::InvalidManifest)
                },
            },
        }
    }
}

impl Default for Manifest {
    /// A registry with nothing installed and no version in use.
    fn default() -> (m: Manifest)
        ensures
            m.wf(),
            m.installed() == Map::<GodotVersion, Seq<char>>::empty(),
            m.current() is None,
    {
        Manifest::new()
    }
}

} // verus!

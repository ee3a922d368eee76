//! The daemon's registry of named volumes and what it answers to requests.
use vstd::prelude::*;
use crate::text::append_str;
use crate::types::volume::Volume;

pub mod client;
pub mod config;
pub mod server;
pub mod volume;

verus! {

/// `Volume '<name>'` followed by `rest`.
pub open spec fn volume_text(name: Seq<char>, rest: Seq<char>) -> Seq<char> {
    "Volume '"@ + name + rest
}

pub open spec fn already_exists_text(name: Seq<char>) -> Seq<char> {
    volume_text(name, "' already exists"@)
}

pub open spec fn not_found_text(name: Seq<char>) -> Seq<char> {
    volume_text(name, "' not found"@)
}

pub open spec fn currently_mounted_text(name: Seq<char>) -> Seq<char> {
    volume_text(name, "' is currently mounted. Unmount it first."@)
}

pub open spec fn already_mounted_text(name: Seq<char>) -> Seq<char> {
    volume_text(name, "' is already mounted"@)
}

pub open spec fn not_mounted_text(name: Seq<char>) -> Seq<char> {
    volume_text(name, "' is not mounted"@)
}

fn volume_message(name: &str, rest: &str) -> (s: String)
    ensures
        s@ == volume_text(name@, rest@),
{
    let mut s = "Volume '".to_owned();
    append_str(&mut s, name);
    append_str(&mut s, rest);
    s
}

/// No two volumes share a name.
pub open spec fn distinct_names(v: Seq<Volume>) -> bool {
    forall|i: int, j: int| 0 <= i < v.len() && 0 <= j < v.len() && i != j ==> v[i].name@ != v[j].name@
}

/// Index of the volume named `name`, or -1.
pub open spec fn name_index(v: Seq<Volume>, name: Seq<char>) -> int {
    if exists|i: int| 0 <= i < v.len() && v[i].name@ == name {
        choose|i: int| 0 <= i < v.len() && v[i].name@ == name
    } else {
        -1
    }
}

/// The mounted volumes, in order.
pub open spec fn mounted_only(v: Seq<Volume>) -> Seq<Volume>
    decreases v.len(),
{
    if v.len() == 0 {
        Seq::empty()
    } else if v.last().is_mounted {
        mounted_only(v.drop_last()).push(v.last())
    } else {
        mounted_only(v.drop_last())
    }
}

pub(crate) proof fn lemma_mounted_only_member(v: Seq<Volume>, i: int)
    requires
        distinct_names(v),
        0 <= i < mounted_only(v).len(),
    ensures
        name_index(v, mounted_only(v)[i].name@) >= 0,
        v[name_index(v, mounted_only(v)[i].name@)] == mounted_only(v)[i],
        mounted_only(v)[i].is_mounted,
    decreases v.len(),
{
    let d = v.drop_last();
    let m = mounted_only(v);
    assert(distinct_names(d));
    if v.last().is_mounted && i == m.len() - 1 {
        lemma_name_index(v, v.last().name@, v.len() - 1);
    } else {
        lemma_mounted_only_member(d, i);
        let j = name_index(d, mounted_only(d)[i].name@);
        assert(v[j] == d[j]);
        lemma_name_index(v, mounted_only(d)[i].name@, j);
    }
}

pub(crate) proof fn lemma_mounted_only_complete(v: Seq<Volume>, k: int)
    requires
        0 <= k < v.len(),
        v[k].is_mounted,
    ensures
        mounted_only(v).contains(v[k]),
    decreases v.len(),
{
    let d = v.drop_last();
    if k == v.len() - 1 {
        assert(mounted_only(v)[mounted_only(v).len() - 1] == v[k]);
    } else {
        assert(d[k] == v[k]);
        lemma_mounted_only_complete(d, k);
        let t = choose|t: int| 0 <= t < mounted_only(d).len() && mounted_only(d)[t] == v[k];
        if v.last().is_mounted {
            assert(mounted_only(v)[t] == v[k]);
        }
    }
}

pub(crate) proof fn lemma_name_index(v: Seq<Volume>, name: Seq<char>, i: int)
    requires
        distinct_names(v),
        0 <= i < v.len(),
        v[i].name@ == name,
    ensures
        name_index(v, name) == i,
{
}

fn find_name(v: &Vec<Volume>, name: &str) -> (r: Option<usize>)
    requires
        distinct_names(v@),
    ensures
        match r {
            Some(i) => i < v@.len() && v@[i as int].name@ == name@ && name_index(v@, name@) == i,
            None => name_index(v@, name@) == -1,
        },
{
    let n = name.to_owned();
    let mut i: usize = 0;
    while i < v.len()
        invariant
            i <= v@.len(),
            n@ == name@,
            distinct_names(v@),
            forall|t: int| 0 <= t < i ==> v@[t].name@ != name@,
        decreases v.len() - i,
    {
        if v[i].name == n {
            proof {
                lemma_name_index(v@, name@, i as int);
            }
            return Some(i);
        }
        i += 1;
    }
    None
}

/// The daemon's volumes, each under its own name.
#[derive(Debug)]
pub struct DaemonState {
    volumes: Vec<Volume>,
}

impl DaemonState {
    /// Volume names are distinct.
    pub open spec fn wf(&self) -> bool {
        distinct_names(self.volumes_view())
    }

    /// The volumes, in the order they were created.
    pub closed spec fn volumes_view(&self) -> Seq<Volume> {
        self.volumes@
    }

    /// A registry with no volume.
    pub fn new() -> (s: Self)
        ensures
            s.wf(),
            s.volumes_view().len() == 0,
    {
        DaemonState { volumes: Vec::new() }
    }

    /// Registers a new unmounted volume named `name`, unless the name is
    /// taken.
    pub fn create_volume(&mut self, name: String) -> (r: Result<Volume, String>)
        requires
            old(self).wf(),
        ensures
            final(self).wf(),
            name_index(old(self).volumes_view(), name@) >= 0 ==> (r matches Err(m) && m@ == already_exists_text(name@)
                && final(self).volumes_view() == old(self).volumes_view()),
            name_index(old(self).volumes_view(), name@) < 0 ==> (r matches Ok(v) && {
                &&& final(self).volumes_view() == old(self).volumes_view().push(v)
                &&& v.name == name
                &&& !v.is_mounted
                &&& v.mount_point is None
            }),
    {
        match find_name(&self.volumes, name.as_str()) {
            Some(_) => Err(volume_message(name.as_str(), "' already exists")),
            None => {
                let v = Volume::new(name);
                let copy = v.duplicate();
                let ghost before = self.volumes@;
                self.volumes.push(v);
                proof {
                    assert forall|i: int, j: int| 0 <= i < self.volumes@.len() && 0 <= j < self.volumes@.len() && i != j
                        implies self.volumes@[i].name@ != self.volumes@[j].name@ by {
                        if i < before.len() && j < before.len() {
                            assert(self.volumes@[i] == before[i] && self.volumes@[j] == before[j]);
                        } else if i < before.len() {
                            assert(self.volumes@[i] == before[i]);
                        } else {
                            assert(self.volumes@[j] == before[j]);
                        }
                    }
                }
                Ok(copy)
            },
        }
    }

    /// Removes the volume named `name`.  A mounted volume stays, and the
    /// answer is an error asking to unmount it first.
    pub fn delete_volume(&mut self, name: &str) -> (r: Result<String, String>)
        requires
            old(self).wf(),
        ensures
            final(self).wf(),
            ({
                let i = name_index(old(self).volumes_view(), name@);
                if i < 0 {
                    r matches Err(m) && m@ == not_found_text(name@) && final(self).volumes_view() == old(self).volumes_view()
                } else {
                    &&& old(self).volumes_view()[i].is_mounted ==> (r matches Err(m) && m@ == currently_mounted_text(name@))
                        && final(self).volumes_view() == old(self).volumes_view()
                    &&& !old(self).volumes_view()[i].is_mounted ==> (r matches Ok(n) && n@ == name@)
                        && final(self).volumes_view() == old(self).volumes_view().remove(i)
                }
            }),
    {
        match find_name(&self.volumes, name) {
            Some(i) => {
                if self.volumes[i].is_mounted {
                    return Err(volume_message(name, "' is currently mounted. Unmount it first."));
                }
                let ghost before = self.volumes@;
                let v = self.volumes.remove(i);
                proof {
                    assert forall|a: int, b: int| 0 <= a < self.volumes@.len() && 0 <= b < self.volumes@.len() && a != b
                        implies self.volumes@[a].name@ != self.volumes@[b].name@ by {
                        let sa = if a < i { a } else { a + 1 };
                        let sb = if b < i { b } else { b + 1 };
                        assert(self.volumes@[a] == before[sa] && self.volumes@[b] == before[sb]);
                    }
                }
                Ok(name.to_owned())
            },
            None => Err(volume_message(name, "' not found")),
        }
    }

    /// Copies of all volumes, in order.
    pub fn list_volumes(&self) -> (r: Vec<Volume>)
        ensures
            r@ == self.volumes_view(),
    {
        let mut r: Vec<Volume> = Vec::new();
        let mut i: usize = 0;
        while i < self.volumes.len()
            invariant
                i <= self.volumes@.len(),
                r@ == self.volumes@.subrange(0, i as int),
            decreases self.volumes.len() - i,
        {
            r.push(self.volumes[i].duplicate());
            i += 1;
            assert(r@ =~= self.volumes@.subrange(0, i as int));
        }
        assert(self.volumes@.subrange(0, self.volumes@.len() as int) =~= self.volumes@);
        r
    }

    /// Marks the volume named `name` mounted at `mount_point`.
    pub fn mount_volume(&mut self, name: &str, mount_point: String) -> (r: Result<(String, String), String>)
        requires
            old(self).wf(),
        ensures
            final(self).wf(),
            ({
                let i = name_index(old(self).volumes_view(), name@);
                if i < 0 {
                    r matches Err(m) && m@ == not_found_text(name@) && final(self).volumes_view() == old(self).volumes_view()
                } else if old(self).volumes_view()[i].is_mounted {
                    r matches Err(m) && m@ == already_mounted_text(name@) && final(self).volumes_view() == old(self).volumes_view()
                } else {
                    &&& (r matches Ok((n, p)) && n@ == name@ && p == mount_point)
                    &&& final(self).volumes_view() == old(self).volumes_view().update(i,
                        Volume { mount_point: Some(mount_point), is_mounted: true, ..old(self).volumes_view()[i] })
                }
            }),
    {
        match find_name(&self.volumes, name) {
            Some(i) => {
                if self.volumes[i].is_mounted {
                    return Err(volume_message(name, "' is already mounted"));
                }
                let ghost before = self.volumes@;
                let mut v = self.volumes.remove(i);
                let p = mount_point.clone();
                v.mount(mount_point);
                self.volumes.insert(i, v);
                proof {
                    assert(self.volumes@ =~= before.update(i as int, v));
                    assert forall|a: int, b: int| 0 <= a < self.volumes@.len() && 0 <= b < self.volumes@.len() && a != b
                        implies self.volumes@[a].name@ != self.volumes@[b].name@ by {
                        assert(self.volumes@[a].name == before[a].name && self.volumes@[b].name == before[b].name);
                    }
                }
                Ok((name.to_owned(), p))
            },
            None => Err(volume_message(name, "' not found")),
        }
    }

    /// Marks the volume named `name` unmounted.
    pub fn unmount_volume(&mut self, name: &str) -> (r: Result<String, String>)
        requires
            old(self).wf(),
        ensures
            final(self).wf(),
            ({
                let i = name_index(old(self).volumes_view(), name@);
                if i < 0 {
                    r matches Err(m) && m@ == not_found_text(name@) && final(self).volumes_view() == old(self).volumes_view()
                } else if !old(self).volumes_view()[i].is_mounted {
                    r matches Err(m) && m@ == not_mounted_text(name@) && final(self).volumes_view() == old(self).volumes_view()
                } else {
                    &&& (r matches Ok(n) && n@ == name@)
                    &&& final(self).volumes_view() == old(self).volumes_view().update(i,
                        Volume { is_mounted: false, ..old(self).volumes_view()[i] })
                }
            }),
    {
        match find_name(&self.volumes, name) {
            Some(i) => {
                if !self.volumes[i].is_mounted {
                    return Err(volume_message(name, "' is not mounted"));
                }
                let ghost before = self.volumes@;
                let mut v = self.volumes.remove(i);
                v.unmount();
                self.volumes.insert(i, v);
                proof {
                    assert(self.volumes@ =~= before.update(i as int, v));
                    assert forall|a: int, b: int| 0 <= a < self.volumes@.len() && 0 <= b < self.volumes@.len() && a != b
                        implies self.volumes@[a].name@ != self.volumes@[b].name@ by {
                        assert(self.volumes@[a].name == before[a].name && self.volumes@[b].name == before[b].name);
                    }
                }
                Ok(name.to_owned())
            },
            None => Err(volume_message(name, "' not found")),
        }
    }

    /// Renames the volume named `name` to `new_name`, unless another volume
    /// has that name; with no new name, gives a copy of the volume.
    pub fn modify_volume(&mut self, name: &str, new_name: Option<String>) -> (r: Result<Volume, String>)
        requires
            old(self).wf(),
        ensures
            final(self).wf(),
            ({
                let i = name_index(old(self).volumes_view(), name@);
                match new_name {
                    Some(nn) => if name_index(old(self).volumes_view(), nn@) >= 0 && nn@ != name@ {
                        r matches Err(m) && m@ == already_exists_text(nn@) && final(self).volumes_view() == old(self).volumes_view()
                    } else if i < 0 {
                        r matches Err(m) && m@ == not_found_text(name@) && final(self).volumes_view() == old(self).volumes_view()
                    } else {
                        let renamed = Volume { name: nn, ..old(self).volumes_view()[i] };
                        r == Ok::<Volume, String>(renamed) && final(self).volumes_view() == old(self).volumes_view().update(i, renamed)
                    },
                    None => final(self).volumes_view() == old(self).volumes_view() && if i < 0 {
                        r matches Err(m) && m@ == not_found_text(name@)
                    } else {
                        r == Ok::<Volume, String>(old(self).volumes_view()[i])
                    },
                }
            }),
    {
        match new_name {
            Some(nn) => {
                match find_name(&self.volumes, nn.as_str()) {
                    Some(_) => {
                        let name_owned = name.to_owned();
                        let same = nn == name_owned;
                        if !same {
                            return Err(volume_message(nn.as_str(), "' already exists"));
                        }
                    },
                    None => {},
                }
                match find_name(&self.volumes, name) {
                    Some(i) => {
                        let ghost before = self.volumes@;
                        let mut v = self.volumes.remove(i);
                        v.name = nn;
                        let copy = v.duplicate();
                        self.volumes.insert(i, v);
                        proof {
                            assert(self.volumes@ =~= before.update(i as int, v));
                            assert forall|a: int, b: int| 0 <= a < self.volumes@.len() && 0 <= b < self.volumes@.len() && a != b
                                implies self.volumes@[a].name@ != self.volumes@[b].name@ by {
                                if a != i && b != i {
                                    assert(self.volumes@[a] == before[a] && self.volumes@[b] == before[b]);
                                } else if a == i {
                                    assert(self.volumes@[b] == before[b]);
                                } else {
                                    assert(self.volumes@[a] == before[a]);
                                }
                            }
                        }
                        Ok(copy)
                    },
                    None => Err(volume_message(name, "' not found")),
                }
            },
            None => {
                match find_name(&self.volumes, name) {
                    Some(i) => Ok(self.volumes[i].duplicate()),
                    None => Err(volume_message(name, "' not found")),
                }
            },
        }
    }

    /// Copies of the mounted volumes, in order.
    pub fn get_mounted_volumes(&self) -> (r: Vec<Volume>)
        ensures
            r@ == mounted_only(self.volumes_view()),
    {
        let mut r: Vec<Volume> = Vec::new();
        let mut i: usize = 0;
        assert(self.volumes@.take(0) =~= Seq::<Volume>::empty());
        while i < self.volumes.len()
            invariant
                i <= self.volumes@.len(),
                r@ == mounted_only(self.volumes@.take(i as int)),
            decreases self.volumes.len() - i,
        {
            assert(self.volumes@.take(i + 1).drop_last() =~= self.volumes@.take(i as int));
            if self.volumes[i].is_mounted {
                r.push(self.volumes[i].duplicate());
            }
            i += 1;
        }
        assert(self.volumes@.take(self.volumes@.len() as int) =~= self.volumes@);
        r
    }
}

} // verus!

//! The on-disk module store, modelled: a flat alias directory mapping
//! each installed name to its artifact, a launcher alias kept in lockstep
//! with it, and a canonical area laid out by origin.
//!
//! The store itself is a directory tree; this module keeps the faithful
//! in-memory model of it and computes, for every mutation, the exact
//! filesystem plan — which symlinks to create, which files to unlink,
//! which directories to try to remove — that the caller then executes.
//! Paths are sequences of components; a directory of the canonical area
//! exists exactly as long as some artifact lies under it, which is the
//! store's no-empty-directories invariant.

use vstd::prelude::*;
use vstd::string::*;
use crate::errors::KrewWapcError;
use crate::name::{spec_module_name, spec_launcher_alias, module_name_of_filename, launcher_alias};
use crate::text::str_eq;

verus! {

/// One installed module: its name and the absolute path, in components,
/// of the artifact its alias points at.
pub ghost struct EntryModel {
    pub name: Seq<char>,
    pub target: Seq<Seq<char>>,
}

/// The store's state: the store root and launcher-bin root as absolute
/// paths in components, and the installed modules in alias-directory
/// order.  The launcher alias `kubectl-<name>` exists exactly for the
/// installed names: both are created and removed together.
pub ghost struct StoreModel {
    pub root: Seq<Seq<char>>,
    pub bin_root: Seq<Seq<char>>,
    pub entries: Seq<EntryModel>,
}

/// One installed module, as held at run time.
#[derive(Debug)]
pub struct StoreEntry {
    pub name: String,
    pub target: Vec<String>,
}

impl View for StoreEntry {
    type V = EntryModel;

    open spec fn view(&self) -> EntryModel {
        EntryModel { name: self.name@, target: self.target.deep_view() }
    }
}

/// The module store.
#[derive(Debug)]
pub struct ModuleStore {
    /// Absolute path of the store root, in components.
    pub root: Vec<String>,
    /// Absolute path of the launcher-alias directory, in components.
    pub bin_root: Vec<String>,
    /// The installed modules, one per alias-directory entry.
    pub entries: Vec<StoreEntry>,
}

impl View for ModuleStore {
    type V = StoreModel;

    open spec fn view(&self) -> StoreModel {
        StoreModel {
            root: self.root.deep_view(),
            bin_root: self.bin_root.deep_view(),
            entries: Seq::new(self.entries@.len() as nat, |i: int| self.entries@[i]@),
        }
    }
}

/// The name of the flat alias directory under the store root.
pub open spec fn all_dir_name() -> Seq<char> {
    seq!['a', 'l', 'l']
}

/// `p` is a proper ancestor of `t`: strictly shorter, and `t` starts
/// with it.
pub open spec fn is_strict_prefix(p: Seq<Seq<char>>, t: Seq<Seq<char>>) -> bool {
    p.len() < t.len() && p == t.take(p.len() as int)
}

/// The first entry index holding `n`, or `-1` when none does.
pub open spec fn find_entry(entries: Seq<EntryModel>, n: Seq<char>) -> int
    decreases entries.len(),
{
    if entries.len() == 0 {
        -1
    } else if entries[0].name == n {
        0
    } else {
        let r = find_entry(entries.skip(1), n);
        if r < 0 {
            -1
        } else {
            r + 1
        }
    }
}

/// `find_entry` finds exactly the first entry with the name: a hit is in
/// range, holds the name, and no earlier entry does; a miss means no
/// entry holds it.
pub proof fn lemma_find_entry(entries: Seq<EntryModel>, n: Seq<char>)
    ensures
        find_entry(entries, n) >= 0 ==> find_entry(entries, n) < entries.len() && entries[find_entry(
            entries,
            n,
        )].name == n && forall|j: int| 0 <= j < find_entry(entries, n) ==> entries[j].name != n,
        find_entry(entries, n) < 0 ==> forall|j: int| 0 <= j < entries.len() ==> entries[j].name
            != n,
    decreases entries.len(),
{
    if entries.len() > 0 && entries[0].name != n {
        lemma_find_entry(entries.skip(1), n);
        assert(forall|j: int| 1 <= j < entries.len() ==> entries[j] == entries.skip(1)[j - 1]);
    }
}

/// Some entry holds this name.
pub open spec fn spec_has_name(m: StoreModel, n: Seq<char>) -> bool {
    find_entry(m.entries, n) >= 0
}

/// The artifact path the name's alias points at.
pub open spec fn spec_target_of(m: StoreModel, n: Seq<char>) -> Seq<Seq<char>> {
    m.entries[find_entry(m.entries, n)].target
}

/// A target under the store root belongs to the canonical area.
pub open spec fn spec_in_store(m: StoreModel, t: Seq<Seq<char>>) -> bool {
    is_strict_prefix(m.root, t)
}

/// No two entries share a name.
pub open spec fn names_unique(entries: Seq<EntryModel>) -> bool {
    forall|i: int, j: int|
        0 <= i < j < entries.len() ==> (#[trigger] entries[i]).name != (#[trigger] entries[j]).name
}

/// The store's well-formedness: alias names are distinct.
pub open spec fn spec_wf(m: StoreModel) -> bool {
    names_unique(m.entries)
}

/// A directory of the store exists exactly when something needs it: it
/// is the root, the flat alias directory, or a proper ancestor (below
/// the root) of some installed artifact of the canonical area.  This is
/// the no-empty-directories invariant in definitional form.
pub open spec fn spec_dir_exists(m: StoreModel, d: Seq<Seq<char>>) -> bool {
    ||| d == m.root
    ||| d == m.root.push(all_dir_name())
    ||| (is_strict_prefix(m.root, d) && exists|i: int|
        0 <= i < m.entries.len() && spec_in_store(m, (#[trigger] m.entries[i]).target)
            && is_strict_prefix(d, m.entries[i].target))
}

/// The model after removing the first entry holding `n`.
pub open spec fn spec_remove_entry(m: StoreModel, n: Seq<char>) -> StoreModel {
    StoreModel {
        root: m.root,
        bin_root: m.bin_root,
        entries: m.entries.remove(find_entry(m.entries, n)),
    }
}

/// The model after installing `name` pointing at `target`.
pub open spec fn spec_add_entry(m: StoreModel, name: Seq<char>, target: Seq<Seq<char>>) -> StoreModel {
    StoreModel {
        root: m.root,
        bin_root: m.bin_root,
        entries: m.entries.push(EntryModel { name, target }),
    }
}

/// Copies a path.
pub fn clone_path(p: &Vec<String>) -> (r: Vec<String>)
    ensures
        r.deep_view() == p.deep_view(),
        r@.len() == p@.len(),
{
    let mut r: Vec<String> = Vec::new();
    let mut i: usize = 0;
    while i < p.len()
        invariant
            i <= p@.len(),
            r@.len() == i,
            forall|j: int| 0 <= j < i ==> r.deep_view()[j] == p.deep_view()[j],
        decreases p@.len() - i,
    {
        r.push(p[i].clone());
        i += 1;
    }
    assert(r.deep_view() =~= p.deep_view());
    r
}

/// A path extended by one component.
pub fn path_push(p: &Vec<String>, last: String) -> (r: Vec<String>)
    ensures
        r.deep_view() == p.deep_view().push(last@),
{
    let mut r = clone_path(p);
    r.push(last);
    assert(r.deep_view() =~= p.deep_view().push(last@));
    r
}

/// The first `n` components of a path.
pub fn path_prefix(t: &Vec<String>, n: usize) -> (r: Vec<String>)
    requires
        n <= t@.len(),
    ensures
        r.deep_view() == t.deep_view().take(n as int),
        r@.len() == n,
{
    let mut r: Vec<String> = Vec::new();
    let mut i: usize = 0;
    while i < n
        invariant
            i <= n <= t@.len(),
            r@.len() == i,
            forall|j: int| 0 <= j < i ==> r.deep_view()[j] == t.deep_view()[j],
        decreases n - i,
    {
        r.push(t[i].clone());
        i += 1;
    }
    assert(r.deep_view() =~= t.deep_view().take(n as int));
    r
}

/// Component-wise path equality.
pub fn path_eq(a: &Vec<String>, b: &Vec<String>) -> (r: bool)
    ensures
        r == (a.deep_view() == b.deep_view()),
{
    if a.len() != b.len() {
        assert(a.deep_view().len() != b.deep_view().len());
        return false;
    }
    let mut i: usize = 0;
    while i < a.len()
        invariant
            a@.len() == b@.len(),
            i <= a@.len(),
            forall|j: int| 0 <= j < i ==> a.deep_view()[j] == b.deep_view()[j],
        decreases a@.len() - i,
    {
        if !str_eq(a[i].as_str(), b[i].as_str()) {
            assert(a.deep_view()[i as int] != b.deep_view()[i as int]);
            return false;
        }
        i += 1;
    }
    assert(a.deep_view() =~= b.deep_view());
    true
}

/// Tests whether `p` is a proper ancestor of `t`.
pub fn strict_prefix_of(p: &Vec<String>, t: &Vec<String>) -> (r: bool)
    ensures
        r == is_strict_prefix(p.deep_view(), t.deep_view()),
{
    if p.len() >= t.len() {
        return false;
    }
    let mut i: usize = 0;
    while i < p.len()
        invariant
            p@.len() < t@.len(),
            i <= p@.len(),
            forall|j: int| 0 <= j < i ==> p.deep_view()[j] == t.deep_view()[j],
        decreases p@.len() - i,
    {
        if !str_eq(p[i].as_str(), t[i].as_str()) {
            assert(p.deep_view()[i as int] != t.deep_view().take(p@.len() as int)[i as int]);
            return false;
        }
        i += 1;
    }
    assert(p.deep_view() =~= t.deep_view().take(p@.len() as int));
    true
}

impl ModuleStore {
    /// An empty store over the given roots.
    pub fn new(root: Vec<String>, bin_root: Vec<String>) -> (r: ModuleStore)
        ensures
            r@.root == root.deep_view(),
            r@.bin_root == bin_root.deep_view(),
            r@.entries.len() == 0,
            spec_wf(r@),
    {
        let r = ModuleStore { root, bin_root, entries: Vec::new() };
        assert(r@.entries =~= Seq::<EntryModel>::empty());
        r
    }

    /// The index of the entry holding `name`, if one does.
    fn find_index(&self, name: &str) -> (r: Option<usize>)
        ensures
            r matches Some(i) ==> find_entry(self@.entries, name@) == i as int,
            r is None ==> find_entry(self@.entries, name@) < 0,
    {
        proof {
            lemma_find_entry(self@.entries, name@);
        }
        let n = self.entries.len();
        let mut i: usize = 0;
        while i < n
            invariant
                n == self@.entries.len(),
                n == self.entries@.len(),
                i <= n,
                forall|j: int| 0 <= j < i ==> (#[trigger] self@.entries[j]).name != name@,
            decreases n - i,
        {
            assert(self@.entries[i as int] == self.entries@[i as int]@);
            if str_eq(self.entries[i].name.as_str(), name) {
                proof {
                    lemma_find_entry(self@.entries, name@);
                    if find_entry(self@.entries, name@) < 0 {
                        assert(false);
                    }
                    assert(find_entry(self@.entries, name@) == i as int);
                }
                return Some(i);
            }
            i += 1;
        }
        proof {
            lemma_find_entry(self@.entries, name@);
            if find_entry(self@.entries, name@) >= 0 {
                assert(self@.entries[find_entry(self@.entries, name@)].name == name@);
                assert(false);
            }
        }
        None
    }

    /// Follows the alias: the artifact path installed under `name`, or
    /// `NotFound` when no module of that name is installed.
    pub fn resolve(&self, name: &str) -> (r: Result<Vec<String>, KrewWapcError>)
        ensures
            spec_has_name(self@, name@) ==> (r matches Ok(t) && t.deep_view() == spec_target_of(
                self@,
                name@,
            )),
            !spec_has_name(self@, name@) ==> (r matches Err(e) && e is NotFound),
    {
        match self.find_index(name) {
            Some(i) => {
                proof {
                    lemma_find_entry(self@.entries, name@);
                }
                assert(self@.entries[i as int] == self.entries@[i as int]@);
                Ok(clone_path(&self.entries[i].target))
            },
            None => Err(KrewWapcError::NotFound),
        }
    }
}

/// Appending an entry with a fresh name makes it findable at the end.
pub proof fn lemma_find_entry_push(entries: Seq<EntryModel>, e: EntryModel)
    requires
        forall|j: int| 0 <= j < entries.len() ==> (#[trigger] entries[j]).name != e.name,
    ensures
        find_entry(entries.push(e), e.name) == entries.len(),
    decreases entries.len(),
{
    if entries.len() == 0 {
        assert(entries.push(e)[0] == e);
    } else {
        assert(entries.push(e)[0] == entries[0]);
        assert(entries.push(e).skip(1) =~= entries.skip(1).push(e));
        assert(forall|j: int|
            0 <= j < entries.skip(1).len() ==> (#[trigger] entries.skip(1)[j]) == entries[j + 1]);
        lemma_find_entry_push(entries.skip(1), e);
    }
}

/// Removing an entry keeps the remaining names distinct.
pub proof fn lemma_remove_preserves_unique(entries: Seq<EntryModel>, i: int)
    requires
        names_unique(entries),
        0 <= i < entries.len(),
    ensures
        names_unique(entries.remove(i)),
{
    let r = entries.remove(i);
    assert forall|a: int, b: int| 0 <= a < b < r.len() implies (#[trigger] r[a]).name
        != (#[trigger] r[b]).name by {
        let a0 = if a < i {
            a
        } else {
            a + 1
        };
        let b0 = if b < i {
            b
        } else {
            b + 1
        };
        assert(r[a] == entries[a0]);
        assert(r[b] == entries[b0]);
    }
}

/// With distinct names, removing the entry found under a name leaves no
/// entry holding it.
pub proof fn lemma_remove_name_gone(entries: Seq<EntryModel>, n: Seq<char>)
    requires
        names_unique(entries),
        find_entry(entries, n) >= 0,
    ensures
        find_entry(entries.remove(find_entry(entries, n)), n) < 0,
{
    lemma_find_entry(entries, n);
    let i = find_entry(entries, n);
    let r = entries.remove(i);
    assert forall|j: int| 0 <= j < r.len() implies (#[trigger] r[j]).name != n by {
        let j0 = if j < i {
            j
        } else {
            j + 1
        };
        assert(r[j] == entries[j0]);
        if j0 != i && entries[j0].name == n {
            if j0 < i {
                assert(entries[j0].name != entries[i].name);
            } else {
                assert(entries[i].name != entries[j0].name);
            }
        }
    }
    lemma_find_entry(r, n);
    if find_entry(r, n) >= 0 {
        assert(false);
    }
}

/// The filesystem work one `remove` asks of its caller: two symlinks to
/// unlink, the canonical artifact to unlink when the module lives in the
/// store, and the chain of its ancestor directories — deepest first,
/// stopping short of the store root — each to be removed only if empty,
/// failures ignored.
#[derive(Debug)]
pub struct RemovePlan {
    /// The alias symlink, `<root>/all/<name>`.
    pub unlink_alias: Vec<String>,
    /// The launcher-alias symlink, `<bin_root>/kubectl-<name>`.
    pub unlink_launcher: Vec<String>,
    /// The canonical artifact itself, when it lies under the store root.
    pub unlink_artifact: Option<Vec<String>>,
    /// Ancestor directories of the artifact to try to remove, deepest
    /// first, never including the store root.
    pub prune_dirs: Vec<Vec<String>>,
}

impl ModuleStore {
    /// Uninstalls `name`: drops its entry and hands back the plan of
    /// unlinks and best-effort directory removals that brings the disk
    /// in line.  Fails with `NotFound`, changing nothing, when no module
    /// of that name is installed.
    pub fn remove(&mut self, name: &str) -> (r: Result<RemovePlan, KrewWapcError>)
        ensures
            !spec_has_name(old(self)@, name@) ==> (r matches Err(e) && e is NotFound && final(self)@
                == old(self)@),
            spec_has_name(old(self)@, name@) ==> (r matches Ok(plan) && final(self)@
                == spec_remove_entry(old(self)@, name@) && plan.unlink_alias.deep_view() == old(
                self,
            )@.root.push(all_dir_name()).push(name@) && plan.unlink_launcher.deep_view() == old(
                self,
            )@.bin_root.push(spec_launcher_alias(name@)) && ({
                let t = spec_target_of(old(self)@, name@);
                &&& spec_in_store(old(self)@, t) ==> (plan.unlink_artifact matches Some(a)
                    && a.deep_view() == t && plan.prune_dirs@.len() == t.len() - old(
                    self,
                )@.root.len() - 1 && forall|k: int|
                    0 <= k < plan.prune_dirs@.len() ==> plan.prune_dirs.deep_view()[k] == t.take(
                        t.len() - 1 - k,
                    ))
                &&& !spec_in_store(old(self)@, t) ==> (plan.unlink_artifact is None
                    && plan.prune_dirs@.len() == 0)
            })),
    {
        let i = match self.find_index(name) {
            None => {
                return Err(KrewWapcError::NotFound);
            },
            Some(i) => i,
        };
        proof {
            lemma_find_entry(self@.entries, name@);
        }
        assert(self@.entries[i as int] == self.entries@[i as int]@);
        let t = clone_path(&self.entries[i].target);
        self.entries.remove(i);
        assert(self@.entries =~= spec_remove_entry(old(self)@, name@).entries);
        let unlink_alias = path_push(
            &path_push(&self.root, "all".to_owned()),
            name.to_owned(),
        );
        proof {
            reveal_strlit("all");
            assert("all"@ =~= all_dir_name());
        }
        let unlink_launcher = path_push(&self.bin_root, launcher_alias(name));
        let under = strict_prefix_of(&self.root, &t);
        if under {
            let rootlen = self.root.len();
            let tlen = t.len();
            let count = tlen - rootlen - 1;
            let mut prune: Vec<Vec<String>> = Vec::new();
            let mut k: usize = 0;
            while k < count
                invariant
                    rootlen < tlen == t@.len(),
                    count == tlen - rootlen - 1,
                    k <= count,
                    prune@.len() == k,
                    forall|j: int|
                        0 <= j < k ==> prune.deep_view()[j] == t.deep_view().take(tlen - 1 - j),
                decreases count - k,
            {
                let ghost oldp = prune.deep_view();
                let pref = path_prefix(&t, tlen - 1 - k);
                prune.push(pref);
                assert forall|j: int| 0 <= j < k + 1 implies prune.deep_view()[j]
                    == t.deep_view().take(tlen - 1 - j) by {
                    if j < k {
                        assert(prune.deep_view()[j] == oldp[j]);
                    } else {
                        assert(prune.deep_view()[j] == prune@[k as int].deep_view());
                    }
                }
                k += 1;
            }
            Ok(
                RemovePlan {
                    unlink_alias,
                    unlink_launcher,
                    unlink_artifact: Some(t),
                    prune_dirs: prune,
                },
            )
        } else {
            Ok(
                RemovePlan {
                    unlink_alias,
                    unlink_launcher,
                    unlink_artifact: None,
                    prune_dirs: Vec::new(),
                },
            )
        }
    }
}

/// The filesystem work one installation asks of its caller: the removal
/// plan of a forced overwrite, if any, then the two symlinks to create.
#[derive(Debug)]
pub struct InstallPlan {
    /// The derived module name.
    pub name: String,
    /// What a forced overwrite removed first, to be executed before the
    /// links are created; the crash window between the two is the
    /// documented non-atomicity of a forced installation.
    pub removed: Option<RemovePlan>,
    /// The alias symlink to create, `<root>/all/<name>`, pointing at the
    /// artifact.
    pub alias_path: Vec<String>,
    /// The launcher-alias symlink to create, `<bin_root>/kubectl-<name>`,
    /// pointing at the host's own executable.
    pub launcher_path: Vec<String>,
    /// What the alias points at: the fetched artifact.
    pub alias_target: Vec<String>,
}

impl ModuleStore {
    /// Installs the module a fetch materialized at `target`, deriving
    /// its name from the artifact's file name.  An occupied name fails
    /// with `NameCollision`, changing nothing, unless `force` is given,
    /// in which case the old module is removed first — not atomically:
    /// the plan records the removal to perform before the links are
    /// created.
    pub fn install(&mut self, target: &Vec<String>, force: bool) -> (r: Result<
        InstallPlan,
        KrewWapcError,
    >)
        requires
            target@.len() >= 1,
            spec_wf(old(self)@),
        ensures
            ({
                let name = spec_module_name(target.deep_view().last());
                let had = spec_has_name(old(self)@, name);
                &&& (had && !force) ==> (r matches Err(e) && e is NameCollision && final(self)@
                    == old(self)@)
                &&& (had && force) ==> (r matches Ok(plan) && (plan.removed matches Some(rp)
                    && rp.unlink_alias.deep_view() == old(self)@.root.push(all_dir_name()).push(
                    name,
                ) && rp.unlink_launcher.deep_view() == old(self)@.bin_root.push(
                    spec_launcher_alias(name),
                ) && ({
                    let t = spec_target_of(old(self)@, name);
                    &&& spec_in_store(old(self)@, t) ==> (rp.unlink_artifact matches Some(a)
                        && a.deep_view() == t && rp.prune_dirs@.len() == t.len() - old(
                        self,
                    )@.root.len() - 1 && forall|k: int|
                        0 <= k < rp.prune_dirs@.len() ==> rp.prune_dirs.deep_view()[k] == t.take(
                            t.len() - 1 - k,
                        ))
                    &&& !spec_in_store(old(self)@, t) ==> (rp.unlink_artifact is None
                        && rp.prune_dirs@.len() == 0)
                })) && final(self)@ == spec_add_entry(
                    spec_remove_entry(old(self)@, name),
                    name,
                    target.deep_view(),
                ))
                &&& (!had) ==> (r matches Ok(plan) && plan.removed is None && final(self)@
                    == spec_add_entry(old(self)@, name, target.deep_view()))
                &&& (r matches Ok(plan) ==> (plan.name@ == name && plan.alias_path.deep_view()
                    == old(self)@.root.push(all_dir_name()).push(name)
                    && plan.launcher_path.deep_view() == old(self)@.bin_root.push(
                    spec_launcher_alias(name),
                ) && plan.alias_target.deep_view() == target.deep_view() && spec_wf(final(self)@)
                    && spec_has_name(final(self)@, name) && spec_target_of(final(self)@, name)
                    == target.deep_view()))
            }),
    {
        let last_ix = target.len() - 1;
        assert(target.deep_view()[last_ix as int] == target@[last_ix as int]@);
        let name = module_name_of_filename(target[last_ix].as_str());
        let removed: Option<RemovePlan> = match self.find_index(name.as_str()) {
            Some(_) => {
                if !force {
                    return Err(KrewWapcError::NameCollision);
                }
                match self.remove(name.as_str()) {
                    Ok(rp) => Some(rp),
                    Err(e) => {
                        return Err(e);
                    },
                }
            },
            None => None,
        };
        proof {
            if spec_has_name(old(self)@, name@) {
                lemma_find_entry(old(self)@.entries, name@);
                lemma_remove_preserves_unique(
                    old(self)@.entries,
                    find_entry(old(self)@.entries, name@),
                );
                lemma_remove_name_gone(old(self)@.entries, name@);
            }
            lemma_find_entry(self@.entries, name@);
            lemma_find_entry_push(
                self@.entries,
                EntryModel { name: name@, target: target.deep_view() },
            );
        }
        let ghost mid = self@;
        let entry = StoreEntry { name: name.clone(), target: clone_path(target) };
        assert(entry@ == (EntryModel { name: name@, target: target.deep_view() }));
        self.entries.push(entry);
        assert(self@.entries =~= spec_add_entry(
            mid,
            name@,
            target.deep_view(),
        ).entries);
        proof {
            lemma_remove_preserves_unique_after_push(mid.entries, name@, target.deep_view());
        }
        let alias_path = path_push(&path_push(&self.root, "all".to_owned()), name.clone());
        proof {
            reveal_strlit("all");
            assert("all"@ =~= all_dir_name());
        }
        let launcher_path = path_push(&self.bin_root, launcher_alias(name.as_str()));
        let alias_target = clone_path(target);
        Ok(InstallPlan { name, removed, alias_path, launcher_path, alias_target })
    }
}

/// Classifies what the external artifact fetcher reported: the local
/// artifact path it materialized, or `FetchFailure` — fatal to the pull,
/// never retried — when it produced nothing.
pub fn fetched_artifact(result: Option<Vec<String>>) -> (r: Result<Vec<String>, KrewWapcError>)
    ensures
        result matches Some(p) ==> (r matches Ok(q) && q == p),
        result is None ==> (r matches Err(e) && e is FetchFailure),
{
    match result {
        Some(p) => Ok(p),
        None => Err(KrewWapcError::FetchFailure),
    }
}

/// Classifies what executing an installation's link plan reported:
/// creating either symlink is a store mutation, and its failure is
/// `FilesystemError`, fatal to the pull.
pub fn link_result(created: bool) -> (r: Result<(), KrewWapcError>)
    ensures
        created ==> r is Ok,
        !created ==> (r matches Err(e) && e is FilesystemError),
{
    if created {
        Ok(())
    } else {
        Err(KrewWapcError::FilesystemError)
    }
}

/// The components joined with a `/` before each: `/a/b/c`, or empty for
/// no components.
pub open spec fn slash_join(segs: Seq<Seq<char>>) -> Seq<char>
    decreases segs.len(),
{
    if segs.len() == 0 {
        Seq::empty()
    } else {
        slash_join(segs.drop_last()) + seq!['/'] + segs.last()
    }
}

/// The origin a store-relative artifact path encodes, rejoined for
/// reading: the first component is the scheme, the rest rejoin as
/// `scheme:/` then `/segment` each — `scheme://host/...` for a fetched
/// artifact.
pub open spec fn spec_origin_string(rel: Seq<Seq<char>>) -> Seq<char> {
    rel[0] + seq![':', '/'] + slash_join(rel.skip(1))
}

/// Where an alias points, described for a reader: the reconstructed
/// origin for an artifact of the canonical area, the target path
/// verbatim, marked as foreign, for anything else.
pub open spec fn spec_origin_description(root: Seq<Seq<char>>, t: Seq<Seq<char>>) -> Seq<char> {
    if is_strict_prefix(root, t) {
        spec_origin_string(t.skip(root.len() as int))
    } else {
        slash_join(t) + " (not in the store)"@
    }
}

/// Joins the components of `t` from index `from` on, a `/` before each.
fn slash_join_exec(t: &Vec<String>, from: usize) -> (r: String)
    requires
        from <= t@.len(),
    ensures
        r@ == slash_join(t.deep_view().skip(from as int)),
{
    proof {
        reveal_strlit("/");
    }
    let mut r = String::new();
    let mut i: usize = from;
    assert(t.deep_view().skip(from as int).subrange(0, 0) =~= Seq::<Seq<char>>::empty());
    while i < t.len()
        invariant
            from <= i <= t@.len(),
            r@ == slash_join(t.deep_view().skip(from as int).subrange(0, i - from)),
        decreases t@.len() - i,
    {
        proof {
            reveal_strlit("/");
        }
        r.append("/");
        r.append(t[i].as_str());
        proof {
            let whole = t.deep_view().skip(from as int);
            assert(whole.subrange(0, i + 1 - from).drop_last() =~= whole.subrange(0, i - from));
            assert(whole.subrange(0, i + 1 - from).last() == t.deep_view()[i as int]);
            assert("/"@ =~= seq!['/']);
        }
        i += 1;
    }
    assert(t.deep_view().skip(from as int).subrange(0, t@.len() - from) =~= t.deep_view().skip(
        from as int,
    ));
    r
}

/// Describes where an alias points, as `list` reports it.
fn origin_description(root: &Vec<String>, t: &Vec<String>) -> (r: String)
    ensures
        r@ == spec_origin_description(root.deep_view(), t.deep_view()),
{
    if strict_prefix_of(root, t) {
        assert(root.deep_view().len() == root@.len());
        assert(t.deep_view().len() == t@.len());
        let rl = root.len();
        let tl = t.len();
        assert(rl < tl);
        let mut s = t[rl].clone();
        proof {
            reveal_strlit(":/");
        }
        s.append(":/");
        let tail = slash_join_exec(t, rl + 1);
        s.append(tail.as_str());
        proof {
            let rel = t.deep_view().skip(root@.len() as int);
            assert(rel[0] == t.deep_view()[root@.len() as int]);
            assert(rel.skip(1) =~= t.deep_view().skip(root@.len() as int + 1));
            assert(":/"@ =~= seq![':', '/']);
        }
        s
    } else {
        let mut s = slash_join_exec(t, 0);
        assert(t.deep_view().skip(0) =~= t.deep_view());
        s.append(" (not in the store)");
        s
    }
}

impl ModuleStore {
    /// Enumerates the installed modules: each name beside a description
    /// of where its alias points.
    pub fn list(&self) -> (r: Vec<(String, String)>)
        ensures
            r@.len() == self@.entries.len(),
            forall|i: int|
                0 <= i < r@.len() ==> (#[trigger] r@[i]).0@ == self@.entries[i].name && r@[i].1@
                    == spec_origin_description(self@.root, self@.entries[i].target),
    {
        let mut r: Vec<(String, String)> = Vec::new();
        let n = self.entries.len();
        let mut i: usize = 0;
        while i < n
            invariant
                n == self.entries@.len(),
                i <= n,
                r@.len() == i,
                forall|j: int|
                    0 <= j < i ==> (#[trigger] r@[j]).0@ == self@.entries[j].name && r@[j].1@
                        == spec_origin_description(self@.root, self@.entries[j].target),
            decreases n - i,
        {
            assert(self@.entries[i as int] == self.entries@[i as int]@);
            let name = self.entries[i].name.clone();
            let desc = origin_description(&self.root, &self.entries[i].target);
            r.push((name, desc));
            i += 1;
        }
        r
    }
}

/// The model a forced reinstallation leaves: the old entry removed, the
/// new one appended.
pub open spec fn spec_force_install(m: StoreModel, name: Seq<char>, target: Seq<Seq<char>>) -> StoreModel {
    spec_add_entry(spec_remove_entry(m, name), name, target)
}

/// After an installation into a free name, the module is visible: its
/// name resolves to the installed artifact, the store stays well-formed,
/// and some entry — hence a row of `list` — carries the name.
pub proof fn lemma_installed_module_is_visible(
    m: StoreModel,
    name: Seq<char>,
    target: Seq<Seq<char>>,
)
    requires
        spec_wf(m),
        !spec_has_name(m, name),
    ensures
        spec_has_name(spec_add_entry(m, name, target), name),
        spec_target_of(spec_add_entry(m, name, target), name) == target,
        spec_wf(spec_add_entry(m, name, target)),
        exists|i: int|
            0 <= i < spec_add_entry(m, name, target).entries.len() && (#[trigger] spec_add_entry(
                m,
                name,
                target,
            ).entries[i]).name == name,
{
    lemma_find_entry(m.entries, name);
    let e = EntryModel { name, target };
    lemma_find_entry_push(m.entries, e);
    lemma_remove_preserves_unique_after_push(m.entries, name, target);
    let m2 = spec_add_entry(m, name, target);
    assert(m2.entries[m.entries.len() as int] == e);
}

/// A forced reinstallation of an occupied name succeeds and leaves the
/// name resolving to the newly fetched artifact, with the store still
/// well-formed.
pub proof fn lemma_forced_reinstall_points_at_new(
    m: StoreModel,
    name: Seq<char>,
    target: Seq<Seq<char>>,
)
    requires
        spec_wf(m),
        spec_has_name(m, name),
    ensures
        spec_has_name(spec_force_install(m, name, target), name),
        spec_target_of(spec_force_install(m, name, target), name) == target,
        spec_wf(spec_force_install(m, name, target)),
{
    lemma_find_entry(m.entries, name);
    lemma_remove_preserves_unique(m.entries, find_entry(m.entries, name));
    lemma_remove_name_gone(m.entries, name);
    let m1 = spec_remove_entry(m, name);
    lemma_find_entry(m1.entries, name);
    lemma_installed_module_is_visible(m1, name, target);
}

/// After a removal, the name is gone — its alias and with it, by the
/// store's lockstep invariant, its `kubectl-<name>` launcher alias — the
/// store root still exists, and every ancestor directory of the removed
/// artifact that no remaining artifact lies under is gone.
pub proof fn lemma_removed_module_is_gone(m: StoreModel, name: Seq<char>)
    requires
        spec_wf(m),
        spec_has_name(m, name),
    ensures
        !spec_has_name(spec_remove_entry(m, name), name),
        spec_dir_exists(spec_remove_entry(m, name), m.root),
        forall|d: Seq<Seq<char>>|
            (#[trigger] is_strict_prefix(d, spec_target_of(m, name)) && is_strict_prefix(m.root, d)
                && d != m.root.push(all_dir_name()) && !(exists|i: int|
                0 <= i < spec_remove_entry(m, name).entries.len() && spec_in_store(
                    m,
                    (#[trigger] spec_remove_entry(m, name).entries[i]).target,
                ) && is_strict_prefix(d, spec_remove_entry(m, name).entries[i].target)))
                ==> !spec_dir_exists(spec_remove_entry(m, name), d),
{
    lemma_find_entry(m.entries, name);
    lemma_remove_name_gone(m.entries, name);
    let m2 = spec_remove_entry(m, name);
    lemma_find_entry(m2.entries, name);
    assert forall|d: Seq<Seq<char>>|
        (#[trigger] is_strict_prefix(d, spec_target_of(m, name)) && is_strict_prefix(m.root, d)
            && d != m.root.push(all_dir_name()) && !(exists|i: int|
            0 <= i < m2.entries.len() && spec_in_store(m, (#[trigger] m2.entries[i]).target)
                && is_strict_prefix(d, m2.entries[i].target))) implies !spec_dir_exists(
        m2,
        d,
    ) by {
        assert(d.len() > m.root.len());
        assert(d != m2.root);
        if spec_dir_exists(m2, d) {
            let i = choose|i: int|
                0 <= i < m2.entries.len() && spec_in_store(m2, (#[trigger] m2.entries[i]).target)
                    && is_strict_prefix(d, m2.entries[i].target);
            assert(spec_in_store(m, m2.entries[i].target));
            assert(false);
        }
    }
}

/// Appending a fresh name to distinct names keeps them distinct.
pub proof fn lemma_remove_preserves_unique_after_push(
    entries: Seq<EntryModel>,
    name: Seq<char>,
    target: Seq<Seq<char>>,
)
    requires
        names_unique(entries),
        forall|j: int| 0 <= j < entries.len() ==> (#[trigger] entries[j]).name != name,
    ensures
        names_unique(entries.push(EntryModel { name, target })),
{
    let r = entries.push(EntryModel { name, target });
    assert forall|a: int, b: int| 0 <= a < b < r.len() implies (#[trigger] r[a]).name
        != (#[trigger] r[b]).name by {
        if b < entries.len() {
            assert(r[a] == entries[a]);
            assert(r[b] == entries[b]);
        } else {
            assert(r[a] == entries[a]);
            assert(r[b].name == name);
        }
    }
}

} // verus!

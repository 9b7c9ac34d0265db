//! Planning an extraction: every raw entry an archive reader hands out is
//! validated by PathGuard in archive order, and turned into the write the
//! caller materializes on disk. The first unsafe entry aborts the whole
//! plan; an attacker-controlled archive does not proceed past the first
//! anomaly.
use vstd::prelude::*;

use crate::errors::ExtractError;
use crate::path_guard::{guard_entry, guard_target, is_sep};
use crate::progress::ProgressTracker;

verus! {

/// What a successful extraction run yields: the planned writes in archive
/// order, and the progress accounting the run ended with.
#[derive(Debug)]
pub struct Report {
    pub actions: Vec<Action>,
    pub progress: ProgressTracker,
}

/// What an entry materializes as on disk.
#[derive(Clone, Copy, PartialEq, Eq, Structural, Debug)]
pub enum EntryKind {
    Regular,
    Directory,
}

/// The kind an entry materializes as: a directory when the backend flags it
/// as one or when its recorded name ends with a separator.
pub open spec fn kind_of(name: Seq<u8>, flagged_dir: bool) -> EntryKind {
    if flagged_dir || (name.len() > 0 && is_sep(name.last())) {
        EntryKind::Directory
    } else {
        EntryKind::Regular
    }
}

/// One planned write: the validated destination path, what to put there,
/// and the entry's content bytes (empty for a directory).
#[derive(Debug)]
pub struct Action {
    pub dest: Vec<u8>,
    pub kind: EntryKind,
    pub data: Vec<u8>,
}

/// The mathematical value of an `Action`.
pub struct ActionV {
    pub dest: Seq<u8>,
    pub kind: EntryKind,
    pub data: Seq<u8>,
}

impl View for Action {
    type V = ActionV;

    open spec fn view(&self) -> ActionV {
        ActionV { dest: self.dest@, kind: self.kind, data: self.data@ }
    }
}

impl DeepView for Action {
    type V = ActionV;

    open spec fn deep_view(&self) -> ActionV {
        self@
    }
}

/// Whether PathGuard accepts the entry's recorded path.
pub open spec fn entry_ok(e: (Seq<u8>, bool, Seq<u8>), root: Seq<u8>, upd: Seq<u8>) -> bool {
    guard_target(e.0, root, upd) is Some
}

/// Whether PathGuard accepts every entry of the archive.
pub open spec fn all_safe(es: Seq<(Seq<u8>, bool, Seq<u8>)>, root: Seq<u8>, upd: Seq<u8>) -> bool {
    forall|i: int| 0 <= i < es.len() ==> entry_ok(es[i], root, upd)
}

/// The write one safe entry maps to.
pub open spec fn action_of(e: (Seq<u8>, bool, Seq<u8>), root: Seq<u8>, upd: Seq<u8>) -> ActionV {
    ActionV { dest: guard_target(e.0, root, upd)->0, kind: kind_of(e.0, e.1), data: e.2 }
}

/// The writes a wholly safe archive maps to, in archive order.
pub open spec fn actions_of(
    es: Seq<(Seq<u8>, bool, Seq<u8>)>,
    root: Seq<u8>,
    upd: Seq<u8>,
) -> Seq<ActionV> {
    es.map_values(|e: (Seq<u8>, bool, Seq<u8>)| action_of(e, root, upd))
}

/// Whether `i` is the first entry PathGuard rejects.
pub open spec fn first_unsafe(
    es: Seq<(Seq<u8>, bool, Seq<u8>)>,
    root: Seq<u8>,
    upd: Seq<u8>,
    i: int,
) -> bool {
    &&& 0 <= i < es.len()
    &&& !entry_ok(es[i], root, upd)
    &&& forall|j: int| 0 <= j < i ==> entry_ok(es[j], root, upd)
}

/// Law: a wholly safe archive plans exactly one write per entry, in
/// archive order — an archive of N regular-file entries and M directory
/// entries yields N+M writes — and each write carries the entry's own
/// validated destination, its kind, and its byte-identical content.
pub proof fn lemma_plan_round_trip(es: Seq<(Seq<u8>, bool, Seq<u8>)>, root: Seq<u8>, upd: Seq<u8>)
    requires
        all_safe(es, root, upd),
    ensures
        actions_of(es, root, upd).len() == es.len(),
        forall|i: int| 0 <= i < es.len() ==> #[trigger] actions_of(es, root, upd)[i] == action_of(
            es[i],
            root,
            upd,
        ),
        forall|i: int| 0 <= i < es.len() ==> (#[trigger] actions_of(es, root, upd)[i]).data
            == es[i].2,
        forall|i: int| 0 <= i < es.len() ==> (#[trigger] actions_of(es, root, upd)[i]).kind
            == kind_of(es[i].0, es[i].1),
        forall|i: int| 0 <= i < es.len() ==> (#[trigger] actions_of(es, root, upd)[i]).dest
            == guard_target(es[i].0, root, upd)->0,
{
}

/// Law: every destination a plan holds lies within the extraction root's
/// subtree — the root is a byte-for-byte prefix of each planned write's
/// destination, and no path piece beneath the root names the parent
/// directory.
pub proof fn lemma_plan_within_root(es: Seq<(Seq<u8>, bool, Seq<u8>)>, root: Seq<u8>, upd: Seq<u8>)
    requires
        all_safe(es, root, upd),
    ensures
        forall|i: int| 0 <= i < es.len() ==> (#[trigger] actions_of(es, root, upd)[i]).dest.take(
            root.len() as int,
        ) == root,
        forall|i: int, k: int|
            0 <= i < es.len() && crate::path_guard::pieces(root).len() <= k
                < crate::path_guard::pieces(actions_of(es, root, upd)[i].dest).len()
                ==> #[trigger] crate::path_guard::pieces(actions_of(es, root, upd)[i].dest)[k]
                != crate::path_guard::parent_piece(),
{
    assert forall|i: int| 0 <= i < es.len() implies (#[trigger] actions_of(es, root, upd)[i]).dest.take(
        root.len() as int,
    ) == root by {
        crate::path_guard::lemma_target_within_root(es[i].0, root, upd);
    }
    assert forall|i: int, k: int|
        0 <= i < es.len() && crate::path_guard::pieces(root).len() <= k
            < crate::path_guard::pieces(actions_of(es, root, upd)[i].dest).len() implies #[trigger] crate::path_guard::pieces(
        actions_of(es, root, upd)[i].dest,
    )[k] != crate::path_guard::parent_piece() by {
        crate::path_guard::lemma_target_within_root(es[i].0, root, upd);
    }
}

proof fn lemma_bytes_deep(v: Vec<u8>)
    ensures
        v.deep_view() == v@,
{
    assert(v.deep_view() =~= v@);
}

/// Validates every entry in archive order and plans the writes. When every
/// entry is safe, the plan holds exactly one write per entry, byte-identical
/// in content; otherwise the first unsafe entry aborts the run with
/// `PathTraversal` carrying its recorded path, and nothing is planned.
pub fn plan_entries(
    entries: &Vec<(Vec<u8>, bool, Vec<u8>)>,
    root: &Vec<u8>,
    upd: &Vec<u8>,
) -> (r: Result<Vec<Action>, ExtractError>)
    ensures
        all_safe(entries.deep_view(), root@, upd@) ==> (r matches Ok(acts) && acts.deep_view()
            == actions_of(entries.deep_view(), root@, upd@)),
        !all_safe(entries.deep_view(), root@, upd@) ==> (r matches Err(e) && (e matches
            ExtractError::PathTraversal { path } && exists|i: int|
            #[trigger] first_unsafe(entries.deep_view(), root@, upd@, i) && path@
                == entries.deep_view()[i].0)),
{
    let ghost es = entries.deep_view();
    let mut acts: Vec<Action> = Vec::new();
    let mut i: usize = 0;
    proof {
        assert(acts.deep_view() =~= actions_of(es.take(0), root@, upd@));
    }
    while i < entries.len()
        invariant
            es == entries.deep_view(),
            i <= entries.len(),
            forall|j: int| 0 <= j < i ==> entry_ok(es[j], root@, upd@),
            acts.deep_view() == actions_of(es.take(i as int), root@, upd@),
        decreases entries.len() - i,
    {
        let e = &entries[i];
        proof {
            lemma_bytes_deep(e.0);
            lemma_bytes_deep(e.2);
            assert(es[i as int] == (e.0@, e.1, e.2@));
        }
        match guard_entry(&e.0, root, upd) {
            Ok(dest) => {
                let flagged = e.1;
                let name_ends_sep = if e.0.len() > 0 {
                    let lb = e.0[e.0.len() - 1];
                    lb == 47 || lb == 92
                } else {
                    false
                };
                let kind = if flagged || name_ends_sep {
                    EntryKind::Directory
                } else {
                    EntryKind::Regular
                };
                let data = crate::path_guard::copy_bytes(&e.2);
                let ghost old_acts = acts.deep_view();
                acts.push(Action { dest, kind, data });
                proof {
                    assert(acts.deep_view() =~= old_acts.push(action_of(es[i as int], root@, upd@)));
                    assert(acts.deep_view() =~= actions_of(es.take(i + 1), root@, upd@));
                }
            },
            Err(err) => {
                proof {
                    assert(first_unsafe(es, root@, upd@, i as int));
                    assert(!all_safe(es, root@, upd@));
                }
                return Err(err);
            },
        }
        i += 1;
    }
    proof {
        assert(es.take(entries.len() as int) =~= es);
        assert(all_safe(es, root@, upd@));
    }
    Ok(acts)
}

} // verus!

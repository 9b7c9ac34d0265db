//! PathGuard: decides whether an archive entry's recorded path is safe to
//! write beneath the extraction root, and computes the destination path.
//!
//! A recorded path is a byte string. It is split into pieces at `/` and `\`
//! separators; a piece is *normal* when it is neither `.` nor `..`. A path
//! is safe when it has no `..` piece, does not start with a separator or a
//! drive-letter-like prefix (a `:` before any separator), and decomposes to
//! at least one normal piece.
//! The single reserved entry name that identifies the updater's own package
//! is redirected beneath the fixed `new_updater/` quarantine subdirectory.
use vstd::prelude::*;

use crate::errors::ExtractError;

verus! {

/// A path separator byte: `/` or `\`.
pub open spec fn is_sep(b: u8) -> bool {
    b == 47u8 || b == 92u8
}

/// The piece `..`, which names the parent directory.
pub open spec fn parent_piece() -> Seq<u8> {
    seq![46u8, 46u8]
}

/// The piece `.`, which names the current directory.
pub open spec fn cur_piece() -> Seq<u8> {
    seq![46u8]
}

/// A piece is normal when it is an ordinary name: neither `.` nor `..`.
pub open spec fn is_normal_piece(c: Seq<u8>) -> bool {
    c != parent_piece() && c != cur_piece()
}

/// The maximal separator-free suffix of `p`: the bytes after the last
/// separator, or all of `p` when it holds no separator.
pub open spec fn last_run(p: Seq<u8>) -> Seq<u8>
    decreases p.len(),
{
    if p.len() == 0 {
        Seq::<u8>::empty()
    } else if is_sep(p.last()) {
        Seq::<u8>::empty()
    } else {
        last_run(p.drop_last()).push(p.last())
    }
}

/// The non-empty chunks of `p` between separators, in order.
pub open spec fn pieces(p: Seq<u8>) -> Seq<Seq<u8>>
    decreases p.len(),
{
    if p.len() == 0 {
        Seq::<Seq<u8>>::empty()
    } else {
        let rest = pieces(p.drop_last());
        let b = p.last();
        if is_sep(b) {
            rest
        } else if last_run(p.drop_last()).len() == 0 {
            rest.push(seq![b])
        } else {
            rest.update(rest.len() - 1, rest.last().push(b))
        }
    }
}

/// The normal pieces of a piece sequence, in order.
pub open spec fn normals(cs: Seq<Seq<u8>>) -> Seq<Seq<u8>>
    decreases cs.len(),
{
    if cs.len() == 0 {
        Seq::<Seq<u8>>::empty()
    } else if is_normal_piece(cs.last()) {
        normals(cs.drop_last()).push(cs.last())
    } else {
        normals(cs.drop_last())
    }
}

/// Whether the path begins with a drive-letter-like prefix: a `:` byte
/// that comes before any separator, as in `C:\x` or `c:stuff`. A colon in
/// a later piece is an ordinary file-name byte.
pub open spec fn has_drive_prefix(p: Seq<u8>) -> bool {
    exists|i: int|
        #![trigger p[i]]
        0 <= i < p.len() && p[i] == 58u8 && (forall|j: int| 0 <= j < i ==> !is_sep(#[trigger] p[j]))
}

/// Whether any piece of the path names the parent directory.
pub open spec fn has_parent(p: Seq<u8>) -> bool {
    exists|i: int| 0 <= i < pieces(p).len() && pieces(p)[i] == parent_piece()
}

/// A recorded entry path is safe to write beneath the extraction root:
/// no `..` piece, not absolute (no leading separator and no drive-letter
/// prefix), and at least one normal piece.
pub open spec fn path_safe(p: Seq<u8>) -> bool {
    &&& p.len() > 0
    &&& !is_sep(p[0])
    &&& !has_drive_prefix(p)
    &&& !has_parent(p)
    &&& normals(pieces(p)).len() > 0
}

/// The final normal piece of a safe path: the entry's own name.
pub open spec fn final_name(p: Seq<u8>) -> Seq<u8> {
    normals(pieces(p)).last()
}

/// The fixed quarantine subdirectory name, `new_updater`.
pub open spec fn quarantine() -> Seq<u8> {
    seq![110u8, 101u8, 119u8, 95u8, 117u8, 112u8, 100u8, 97u8, 116u8, 101u8, 114u8]
}

/// Joining a relative path beneath a root: a `/` is inserted unless the
/// root is empty or already ends with a separator.
pub open spec fn join(root: Seq<u8>, rel: Seq<u8>) -> Seq<u8> {
    if root.len() == 0 {
        rel
    } else if is_sep(root.last()) {
        root + rel
    } else {
        root + seq![47u8] + rel
    }
}

/// What PathGuard decides for a recorded entry path: `None` when the path
/// is unsafe, otherwise the destination. An entry whose final name equals
/// the reserved updater self-identifier goes beneath `root/new_updater/`;
/// every other entry goes beneath `root/`.
pub open spec fn guard_target(p: Seq<u8>, root: Seq<u8>, upd: Seq<u8>) -> Option<Seq<u8>> {
    if !path_safe(p) {
        None
    } else if final_name(p) == upd {
        Some(join(join(root, quarantine()), p))
    } else {
        Some(join(root, p))
    }
}

proof fn lemma_take_step<T>(s: Seq<T>, i: int)
    requires
        0 <= i < s.len(),
    ensures
        s.take(i + 1).drop_last() == s.take(i),
        s.take(i + 1).last() == s[i],
{
    assert(s.take(i + 1).drop_last() =~= s.take(i));
}

/// Splits a byte path into its non-empty pieces.
pub fn split_pieces(p: &Vec<u8>) -> (r: Vec<Vec<u8>>)
    ensures
        r.deep_view() == pieces(p@),
{
    let mut out: Vec<Vec<u8>> = Vec::new();
    let mut cur: Vec<u8> = Vec::new();
    let mut i: usize = 0;
    proof {
        assert(p@.take(0) =~= Seq::<u8>::empty());
        assert(out.deep_view() + Seq::<Seq<u8>>::empty() =~= pieces(p@.take(0)));
        assert(cur@ =~= last_run(p@.take(0)));
    }
    while i < p.len()
        invariant
            i <= p.len(),
            cur@ == last_run(p@.take(i as int)),
            out.deep_view() + (if cur@.len() == 0 {
                Seq::<Seq<u8>>::empty()
            } else {
                seq![cur@]
            }) == pieces(p@.take(i as int)),
        decreases p.len() - i,
    {
        let ghost pre = p@.take(i as int);
        let ghost post = p@.take(i + 1);
        proof {
            lemma_take_step(p@, i as int);
        }
        let b = p[i];
        if b == 47 || b == 92 {
            assert(pieces(post) == pieces(pre));
            assert(last_run(post) =~= Seq::<u8>::empty());
            if cur.len() > 0 {
                let ghost old_out = out.deep_view();
                let ghost cv = cur@;
                out.push(cur);
                assert(out.deep_view() =~~= old_out.push(cv));
                assert(out.deep_view() =~~= old_out + seq![cv]);
                cur = Vec::new();
            }
            assert(out.deep_view() + Seq::<Seq<u8>>::empty() =~= pieces(post));
        } else {
            if cur.len() == 0 {
                assert(last_run(pre).len() == 0);
                assert(pieces(pre) =~= out.deep_view() + Seq::<Seq<u8>>::empty());
                cur.push(b);
                assert(pieces(post) == pieces(pre).push(seq![p@[i as int]]));
                assert(cur@ =~= last_run(post));
                assert(out.deep_view() + seq![cur@] =~= pieces(post));
            } else {
                let ghost old_cur = cur@;
                cur.push(b);
                assert(pieces(pre) == out.deep_view() + seq![old_cur]);
                assert(pieces(pre).len() > 0);
                assert(pieces(pre).last() == old_cur);
                assert(pieces(post) == pieces(pre).update(pieces(pre).len() - 1, old_cur.push(p@[i as int])));
                assert(cur@ =~= last_run(post));
                assert(out.deep_view() + seq![cur@] =~= pieces(post));
            }
        }
        i += 1;
    }
    assert(p@.take(p.len() as int) =~= p@);
    if cur.len() > 0 {
        let ghost old_out = out.deep_view();
        let ghost cv = cur@;
        out.push(cur);
        assert(out.deep_view() =~~= old_out.push(cv));
        assert(out.deep_view() =~~= old_out + seq![cv]);
    }
    out
}

/// A fresh copy of a byte string.
pub fn copy_bytes(v: &Vec<u8>) -> (r: Vec<u8>)
    ensures
        r@ == v@,
{
    let mut r: Vec<u8> = Vec::new();
    let mut i: usize = 0;
    while i < v.len()
        invariant
            i <= v.len(),
            r@ == v@.take(i as int),
        decreases v.len() - i,
    {
        r.push(v[i]);
        assert(r@ =~= v@.take(i + 1));
        i += 1;
    }
    assert(v@.take(v.len() as int) =~= v@);
    r
}

/// Whether two byte strings hold the same bytes.
pub fn bytes_eq(a: &Vec<u8>, b: &Vec<u8>) -> (r: bool)
    ensures
        r == (a@ == b@),
{
    if a.len() != b.len() {
        return false;
    }
    let mut i: usize = 0;
    while i < a.len()
        invariant
            a.len() == b.len(),
            i <= a.len(),
            forall|j: int| 0 <= j < i ==> a@[j] == b@[j],
        decreases a.len() - i,
    {
        if a[i] != b[i] {
            return false;
        }
        i += 1;
    }
    assert(a@ =~= b@);
    true
}

/// Appends the bytes of `src` to `dst`.
pub fn extend_bytes(dst: &mut Vec<u8>, src: &Vec<u8>)
    ensures
        final(dst)@ == old(dst)@ + src@,
{
    let mut i: usize = 0;
    while i < src.len()
        invariant
            i <= src.len(),
            dst@ == old(dst)@ + src@.take(i as int),
        decreases src.len() - i,
    {
        dst.push(src[i]);
        assert(dst@ =~= old(dst)@ + src@.take(i + 1));
        i += 1;
    }
    assert(old(dst)@ + src@.take(src.len() as int) =~= old(dst)@ + src@);
}

/// The quarantine subdirectory name, `new_updater`, as a byte string.
pub fn quarantine_name() -> (r: Vec<u8>)
    ensures
        r@ == quarantine(),
{
    let mut r: Vec<u8> = Vec::new();
    r.push(110);
    r.push(101);
    r.push(119);
    r.push(95);
    r.push(117);
    r.push(112);
    r.push(100);
    r.push(97);
    r.push(116);
    r.push(101);
    r.push(114);
    assert(r@ =~= quarantine());
    r
}

/// Joins a relative path beneath a root directory.
pub fn join_path(root: &Vec<u8>, rel: &Vec<u8>) -> (r: Vec<u8>)
    ensures
        r@ == join(root@, rel@),
{
    if root.len() == 0 {
        return copy_bytes(rel);
    }
    let mut d = copy_bytes(root);
    let lastb = root[root.len() - 1];
    if !(lastb == 47 || lastb == 92) {
        d.push(47);
        assert(d@ =~= root@ + seq![47u8]);
    }
    extend_bytes(&mut d, rel);
    d
}

/// Validates one archive entry's recorded path and resolves the destination
/// it is written to, per `guard_target`: an unsafe path is rejected with
/// `PathTraversal`, the reserved updater name is redirected beneath the
/// quarantine subdirectory, and every other entry goes beneath the root.
pub fn guard_entry(path: &Vec<u8>, root: &Vec<u8>, upd: &Vec<u8>) -> (r: Result<
    Vec<u8>,
    ExtractError,
>)
    ensures
        match guard_target(path@, root@, upd@) {
            Some(d) => r matches Ok(v) && v@ == d,
            None => r matches Err(e) && (e matches ExtractError::PathTraversal { path: q } && q@
                == path@),
        },
{
    if path.len() == 0 {
        return Err(ExtractError::PathTraversal { path: copy_bytes(path) });
    }
    let b0 = path[0];
    if b0 == 47 || b0 == 92 {
        return Err(ExtractError::PathTraversal { path: copy_bytes(path) });
    }
    let mut i: usize = 0;
    let mut before_sep = true;
    while i < path.len() && before_sep
        invariant
            i <= path.len(),
            forall|j: int| 0 <= j < i ==> path@[j] != 58u8 && !is_sep(#[trigger] path@[j]),
            before_sep ==> i <= path.len(),
            !before_sep ==> i < path.len() && is_sep(path@[i as int]),
        decreases path.len() - i, if before_sep {
            1int
        } else {
            0int
        },
    {
        let b = path[i];
        if b == 47 || b == 92 {
            before_sep = false;
        } else {
            if b == 58 {
                assert(has_drive_prefix(path@));
                return Err(ExtractError::PathTraversal { path: copy_bytes(path) });
            }
            i += 1;
        }
    }
    proof {
        if has_drive_prefix(path@) {
            let c = choose|c: int|
                #![trigger path@[c]]
                0 <= c < path@.len() && path@[c] == 58u8 && (forall|j: int|
                    0 <= j < c ==> !is_sep(path@[j]));
            assert(c >= i);
            assert(!is_sep(path@[i as int]));
            assert(false);
        }
    }
    let cs = split_pieces(path);
    let ghost pcs = pieces(path@);
    let mut k: usize = 0;
    let mut ncount: usize = 0;
    let mut lastn: usize = 0;
    while k < cs.len()
        invariant
            cs.deep_view() == pcs,
            pcs == pieces(path@),
            k <= cs.len(),
            ncount <= k,
            forall|j: int| 0 <= j < k ==> pcs[j] != parent_piece(),
            ncount == normals(pcs.take(k as int)).len(),
            ncount > 0 ==> lastn < k && pcs[lastn as int] == normals(pcs.take(k as int)).last(),
        decreases cs.len() - k,
    {
        proof {
            lemma_take_step(pcs, k as int);
        }
        let c = &cs[k];
        assert(c@ =~= pcs[k as int]);
        let is_par = c.len() == 2 && c[0] == 46 && c[1] == 46;
        proof {
            if is_par {
                assert(pcs[k as int] =~= parent_piece());
            } else {
                assert(pcs[k as int] != parent_piece());
            }
        }
        if is_par {
            assert(has_parent(path@));
            return Err(ExtractError::PathTraversal { path: copy_bytes(path) });
        }
        let is_cur = c.len() == 1 && c[0] == 46;
        proof {
            if is_cur {
                assert(pcs[k as int] =~= cur_piece());
            } else {
                assert(pcs[k as int] != cur_piece());
            }
        }
        if !is_cur {
            ncount = ncount + 1;
            lastn = k;
        }
        k += 1;
    }
    assert(pcs.take(cs.len() as int) =~= pcs);
    if ncount == 0 {
        assert(normals(pieces(path@)).len() == 0);
        return Err(ExtractError::PathTraversal { path: copy_bytes(path) });
    }
    proof {
        if has_parent(path@) {
            let j = choose|j: int| 0 <= j < pieces(path@).len() && pieces(path@)[j]
                == parent_piece();
            assert(false);
        }
        assert(path_safe(path@));
        assert(cs@[lastn as int]@ =~= cs.deep_view()[lastn as int]);
        assert(cs.deep_view()[lastn as int] == final_name(path@));
    }
    let redirect = bytes_eq(&cs[lastn], upd);
    if redirect {
        let q = quarantine_name();
        let inner = join_path(root, &q);
        Ok(join_path(&inner, path))
    } else {
        Ok(join_path(root, path))
    }
}

proof fn lemma_last_run_pieces(q: Seq<u8>)
    ensures
        last_run(q).len() > 0 ==> pieces(q).len() > 0,
    decreases q.len(),
{
    if q.len() == 0 {
    } else if is_sep(q.last()) {
    } else {
        lemma_last_run_pieces(q.drop_last());
    }
}

proof fn lemma_pieces_single(c: Seq<u8>)
    requires
        c.len() > 0,
        forall|k: int| 0 <= k < c.len() ==> !is_sep(#[trigger] c[k]),
    ensures
        pieces(c) == seq![c],
        last_run(c) == c,
    decreases c.len(),
{
    let c0 = c.drop_last();
    assert(!is_sep(c[c.len() - 1]));
    if c0.len() == 0 {
        assert(c =~= seq![c.last()]);
        assert(pieces(c0) =~= Seq::<Seq<u8>>::empty());
        assert(last_run(c0) =~= Seq::<u8>::empty());
        assert(pieces(c) =~= seq![c]);
        assert(last_run(c) =~= c);
    } else {
        assert(forall|k: int| 0 <= k < c0.len() ==> !is_sep(#[trigger] c0[k]));
        lemma_pieces_single(c0);
        assert(c0.push(c.last()) =~= c);
        assert(last_run(c0).len() > 0);
        assert(pieces(c) == pieces(c0).update(pieces(c0).len() - 1, pieces(c0).last().push(
            c.last(),
        )));
        assert(pieces(c0).last() == c0);
        assert(seq![c0].update(0, c0.push(c.last())) =~= seq![c]);
        assert(pieces(c) =~= seq![c]);
        assert(last_run(c) =~= c);
    }
}

proof fn lemma_pieces_sep_concat(a: Seq<u8>, s: u8, b: Seq<u8>)
    requires
        is_sep(s),
    ensures
        pieces(a + seq![s] + b) == pieces(a) + pieces(b),
        last_run(a + seq![s] + b) == last_run(b),
    decreases b.len(),
{
    let w = a + seq![s] + b;
    if b.len() == 0 {
        assert(w =~= (a + seq![s]));
        assert(w.drop_last() =~= a);
        assert(w.last() == s);
        assert(pieces(w) =~= pieces(a) + pieces(b));
        assert(last_run(w) =~= last_run(b));
    } else {
        let b0 = b.drop_last();
        let x = b.last();
        lemma_pieces_sep_concat(a, s, b0);
        assert(w.drop_last() =~= a + seq![s] + b0);
        assert(w.last() == x);
        if is_sep(x) {
            assert(pieces(w) =~= pieces(a) + pieces(b));
            assert(last_run(w) =~= last_run(b));
        } else if last_run(b0).len() == 0 {
            assert(pieces(w) == (pieces(a) + pieces(b0)).push(seq![x]));
            assert((pieces(a) + pieces(b0)).push(seq![x]) =~= pieces(a) + pieces(b0).push(seq![x]));
            assert(last_run(w) =~= last_run(b));
        } else {
            lemma_last_run_pieces(b0);
            let rp = pieces(a) + pieces(b0);
            assert(pieces(w) == rp.update(rp.len() - 1, rp.last().push(x)));
            assert(rp.last() == pieces(b0).last());
            assert(rp.update(rp.len() - 1, rp.last().push(x)) =~= pieces(a) + pieces(b0).update(
                pieces(b0).len() - 1,
                pieces(b0).last().push(x),
            ));
            assert(last_run(w) =~= last_run(b));
        }
    }
}

proof fn lemma_join_pieces(root: Seq<u8>, x: Seq<u8>)
    ensures
        pieces(join(root, x)) == pieces(root) + pieces(x),
        join(root, x).take(root.len() as int) == root,
        join(root, x).len() >= root.len() + x.len(),
{
    if root.len() == 0 {
        assert(pieces(join(root, x)) =~= pieces(root) + pieces(x));
        assert(join(root, x).take(0) =~= root);
    } else if is_sep(root.last()) {
        let r0 = root.drop_last();
        assert(root =~= r0 + seq![root.last()]);
        assert(root + x =~= r0 + seq![root.last()] + x);
        lemma_pieces_sep_concat(r0, root.last(), x);
        assert(pieces(root) == pieces(r0));
        assert((root + x).take(root.len() as int) =~= root);
    } else {
        lemma_pieces_sep_concat(root, 47u8, x);
        assert((root + seq![47u8] + x).take(root.len() as int) =~= root);
    }
}

/// Law: every destination PathGuard produces lies within the extraction
/// root's subtree: the root is a byte-for-byte prefix of the destination,
/// and every path piece beneath the root comes from the validated entry
/// path — preceded by the quarantine name for the reserved entry — so no
/// piece below the root is a parent-directory reference.
pub proof fn lemma_target_within_root(p: Seq<u8>, root: Seq<u8>, upd: Seq<u8>)
    requires
        guard_target(p, root, upd) is Some,
    ensures
        path_safe(p),
        (guard_target(p, root, upd)->0).take(root.len() as int) == root,
        pieces(guard_target(p, root, upd)->0) == pieces(root) + pieces(p) || pieces(
            guard_target(p, root, upd)->0,
        ) == pieces(root) + seq![quarantine()] + pieces(p),
        forall|k: int|
            pieces(root).len() <= k < pieces(guard_target(p, root, upd)->0).len()
                ==> #[trigger] pieces(guard_target(p, root, upd)->0)[k] != parent_piece(),
{
    let d = guard_target(p, root, upd)->0;
    if final_name(p) == upd {
        let rq = join(root, quarantine());
        assert(forall|k: int| 0 <= k < quarantine().len() ==> !is_sep(#[trigger] quarantine()[k]));
        lemma_pieces_single(quarantine());
        lemma_join_pieces(root, quarantine());
        lemma_join_pieces(rq, p);
        assert(pieces(d) =~= pieces(root) + seq![quarantine()] + pieces(p));
        assert(d.take(root.len() as int) =~= rq.take(root.len() as int));
    } else {
        lemma_join_pieces(root, p);
    }
    assert forall|k: int|
        pieces(root).len() <= k < pieces(d).len() implies #[trigger] pieces(d)[k]
        != parent_piece() by {
        if pieces(d) == pieces(root) + pieces(p) {
            assert(pieces(d)[k] == pieces(p)[k - pieces(root).len()]);
        } else {
            if k == pieces(root).len() {
                assert(pieces(d)[k] == quarantine());
            } else {
                assert(pieces(d)[k] == pieces(p)[k - pieces(root).len() - 1]);
            }
        }
    }
}

/// Law: a recorded path that holds a parent-directory (`..`) piece is
/// always rejected, whatever the root and the reserved name; the same guard
/// serves both the zip and the tar extractor.
pub proof fn lemma_parent_rejected(p: Seq<u8>, root: Seq<u8>, upd: Seq<u8>)
    requires
        has_parent(p),
    ensures
        guard_target(p, root, upd) is None,
{
}

/// Law: a path that is absolute (leading separator), empty, or decomposes
/// to no normal piece at all is always rejected.
pub proof fn lemma_absolute_or_empty_rejected(p: Seq<u8>, root: Seq<u8>, upd: Seq<u8>)
    requires
        p.len() == 0 || is_sep(p[0]) || normals(pieces(p)).len() == 0,
    ensures
        guard_target(p, root, upd) is None,
{
}

/// Law: an entry whose final normal piece equals the reserved updater
/// self-identifier resolves beneath `root/new_updater/`, and never to the
/// plain `root/<relative-path>` destination.
pub proof fn lemma_reserved_redirected(p: Seq<u8>, root: Seq<u8>, upd: Seq<u8>)
    requires
        path_safe(p),
        final_name(p) == upd,
    ensures
        guard_target(p, root, upd) == Some(join(join(root, quarantine()), p)),
        guard_target(p, root, upd) != Some(join(root, p)),
{
    let rq = join(root, quarantine());
    assert(quarantine().last() == 114u8);
    assert(rq.len() >= root.len() + 11);
    assert(rq.last() == 114u8);
    assert(!is_sep(rq.last()));
    assert(join(rq, p).len() == rq.len() + 1 + p.len());
    assert(join(root, p).len() <= root.len() + 1 + p.len());
    assert(join(rq, p).len() > join(root, p).len());
}

} // verus!

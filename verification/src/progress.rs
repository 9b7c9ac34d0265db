//! ProgressTracker: counts processed entries against a total that is either
//! known up front (zip), determined by a counting pre-pass (tar), or left
//! unknown when the source cannot be rewound. Advancing is monotonic and,
//! when the total is known, never exceeds it. Rendering is pure: the
//! tracker computes the bytes of a compact `completed/total` line and of the
//! line that blacks it out; the caller owns the console.
use vstd::prelude::*;

verus! {

/// The decimal digits of `n`, most significant first.
pub open spec fn dec_spec(n: nat) -> Seq<u8>
    decreases n,
{
    if n < 10 {
        seq![(48 + n) as u8]
    } else {
        dec_spec(n / 10).push((48 + n % 10) as u8)
    }
}

/// The decimal digits of `n` as bytes.
pub fn dec_digits(n: usize) -> (r: Vec<u8>)
    ensures
        r@ == dec_spec(n as nat),
    decreases n,
{
    if n < 10 {
        let mut r: Vec<u8> = Vec::new();
        r.push(48 + (n as u8));
        assert(r@ =~= dec_spec(n as nat));
        r
    } else {
        assert(n / 10 < n) by (nonlinear_arith)
            requires
                n >= 10,
        ;
        let mut r = dec_digits(n / 10);
        r.push(48 + ((n % 10) as u8));
        assert(r@ =~= dec_spec(n as nat));
        r
    }
}

/// Progress accounting for one extraction run.
#[derive(Debug)]
pub struct ProgressTracker {
    /// Entries processed so far.
    pub completed: usize,
    /// Total expected entries, when knowable.
    pub total: Option<usize>,
}

/// The compact progress line: `completed/total`, with `?` for an unknown
/// total.
pub open spec fn render_spec(t: ProgressTracker) -> Seq<u8> {
    dec_spec(t.completed as nat) + seq![47u8] + (match t.total {
        Some(n) => dec_spec(n as nat),
        None => seq![63u8],
    })
}

/// The line that blacks out the compact line: a carriage return, one space
/// per rendered byte, and a carriage return again.
pub open spec fn blackout_spec(t: ProgressTracker) -> Seq<u8> {
    seq![13u8] + Seq::new(render_spec(t).len(), |i: int| 32u8) + seq![13u8]
}

impl ProgressTracker {
    /// The tracker never counts past a known total.
    pub open spec fn wf(self) -> bool {
        match self.total {
            Some(n) => self.completed <= n,
            None => true,
        }
    }

    /// A fresh tracker: nothing processed yet.
    pub fn new(total: Option<usize>) -> (r: Self)
        ensures
            r.completed == 0,
            r.total == total,
            r.wf(),
    {
        ProgressTracker { completed: 0, total }
    }

    /// One entry was processed: `completed` rises by exactly one and the
    /// total is untouched.
    pub fn advance(&mut self)
        requires
            old(self).completed < usize::MAX,
            old(self).total matches Some(n) ==> old(self).completed < n,
        ensures
            final (self).completed == old(self).completed + 1,
            final (self).total == old(self).total,
            final (self).wf(),
    {
        self.completed = self.completed + 1;
    }

    /// The bytes of the compact progress line.
    pub fn compact_line(&self) -> (r: Vec<u8>)
        ensures
            r@ == render_spec(*self),
    {
        let mut r = dec_digits(self.completed);
        r.push(47);
        match self.total {
            Some(n) => {
                let d = dec_digits(n);
                crate::path_guard::extend_bytes(&mut r, &d);
            },
            None => {
                r.push(63);
            },
        }
        assert(r@ =~= render_spec(*self));
        r
    }

    /// The bytes that overwrite the compact line with blanks, so a verbose
    /// per-entry line can be printed without corrupting it.
    pub fn blackout_line(&self) -> (r: Vec<u8>)
        ensures
            r@ == blackout_spec(*self),
    {
        let line = self.compact_line();
        let mut r: Vec<u8> = Vec::new();
        r.push(13);
        let mut i: usize = 0;
        while i < line.len()
            invariant
                i <= line.len(),
                r@ == seq![13u8] + Seq::new(i as nat, |k: int| 32u8),
            decreases line.len() - i,
        {
            r.push(32);
            assert(r@ =~= seq![13u8] + Seq::new((i + 1) as nat, |k: int| 32u8));
            i += 1;
        }
        r.push(13);
        assert(r@ =~= blackout_spec(*self));
        r
    }
}

} // verus!

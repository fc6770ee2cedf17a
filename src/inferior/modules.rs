//! Breakpoints registered by module and offset, and the loaded modules
//! whose unloading drops the breakpoints that lay inside them.

use vstd::prelude::*;
use crate::debug::breakpoint::{Breakpoint, BreakpointType};
use crate::inferior::{has_target, DebugError, Inferior, InferiorView};

verus! {

/// The bounds recorded for module `m`: those of its first entry.
pub open spec fn bounds_of(s: Seq<(String, u64, u64)>, m: Seq<char>) -> Option<(u64, u64)>
    decreases s.len(),
{
    if s.len() == 0 {
        None
    } else if s[0].0@ == m {
        Some((s[0].1, s[0].2))
    } else {
        bounds_of(s.drop_first(), m)
    }
}

/// Bounds widened to take in `offset`; a module without bounds gets
/// `(offset, offset)`.
pub open spec fn widened(b: Option<(u64, u64)>, offset: u64) -> (u64, u64) {
    match b {
        Some((lo, hi)) => (
            if offset < lo {
                offset
            } else {
                lo
            },
            if offset > hi {
                offset
            } else {
                hi
            },
        ),
        None => (offset, offset),
    }
}

/// `a + b`, or the largest address if that does not fit.
pub open spec fn sat_add(a: u64, b: u64) -> u64 {
    if a + b <= u64::MAX {
        (a + b) as u64
    } else {
        u64::MAX
    }
}

/// Whether a breakpoint lies outside `[start, end]`.
pub open spec fn outside(start: u64, end: u64) -> spec_fn(Breakpoint) -> bool {
    |b: Breakpoint| b.target_address < start || b.target_address > end
}

/// The breakpoints left after the module at `base`, with recorded bounds
/// `b`, is unloaded.
pub open spec fn after_unload(
    bps: Seq<Breakpoint>,
    base: u64,
    b: Option<(u64, u64)>,
) -> Seq<Breakpoint> {
    match b {
        Some((lo, hi)) => bps.filter(outside(sat_add(base, lo), sat_add(base, hi))),
        None => bps,
    }
}

proof fn lemma_bounds_at(s: Seq<(String, u64, u64)>, m: Seq<char>, i: int)
    requires
        0 <= i < s.len(),
        s[i].0@ == m,
        forall|j: int| 0 <= j < i ==> s[j].0@ != m,
    ensures
        bounds_of(s, m) == Some((s[i].1, s[i].2)),
    decreases i,
{
    if i > 0 {
        lemma_bounds_at(s.drop_first(), m, i - 1);
    }
}

proof fn lemma_bounds_none(s: Seq<(String, u64, u64)>, m: Seq<char>)
    requires
        forall|j: int| 0 <= j < s.len() ==> s[j].0@ != m,
    ensures
        bounds_of(s, m) is None,
    decreases s.len(),
{
    if s.len() > 0 {
        lemma_bounds_none(s.drop_first(), m);
    }
}

proof fn lemma_bounds_update(s: Seq<(String, u64, u64)>, m: Seq<char>, i: int, x: (String, u64, u64), other: Seq<char>)
    requires
        0 <= i < s.len(),
        s[i].0@ == m,
        x.0@ == m,
        forall|j: int| 0 <= j < i ==> s[j].0@ != m,
        other != m,
    ensures
        bounds_of(s.update(i, x), other) == bounds_of(s, other),
    decreases i,
{
    if i > 0 {
        assert(s.update(i, x)[0] == s[0]);
        assert(s.update(i, x).drop_first() =~= s.drop_first().update(i - 1, x));
        lemma_bounds_update(s.drop_first(), m, i - 1, x, other);
    } else {
        assert(s.update(i, x)[0] == x);
        assert(s.update(i, x).drop_first() =~= s.drop_first());
    }
}

proof fn lemma_bounds_push(s: Seq<(String, u64, u64)>, x: (String, u64, u64), other: Seq<char>)
    requires
        x.0@ != other,
    ensures
        bounds_of(s.push(x), other) == bounds_of(s, other),
    decreases s.len(),
{
    if s.len() > 0 {
        assert(s.push(x)[0] == s[0]);
        assert(s.push(x).drop_first() =~= s.drop_first().push(x));
        lemma_bounds_push(s.drop_first(), x, other);
    } else {
        assert(s.push(x)[0] == x);
        assert(s.push(x).drop_first() =~= s);
    }
}

/// Index of the first bounds entry named `name`, if any.
fn find_bounds(s: &Vec<(String, u64, u64)>, name: &String) -> (r: Option<usize>)
    ensures
        match r {
            Some(i) => i < s@.len() && s@[i as int].0@ == name@ && forall|j: int|
                0 <= j < i ==> s@[j].0@ != name@,
            None => forall|j: int| 0 <= j < s@.len() ==> s@[j].0@ != name@,
        },
{
    let mut i: usize = 0;
    while i < s.len()
        invariant
            i <= s@.len(),
            forall|j: int| 0 <= j < i ==> s@[j].0@ != name@,
        decreases s@.len() - i,
    {
        if s[i].0 == *name {
            return Some(i);
        }
        i = i + 1;
    }
    None
}

/// Whether `s` holds a registration for `offset` into module `m`.
pub open spec fn has_registration(s: Seq<Breakpoint>, m: Seq<char>, offset: u64) -> bool {
    exists|i: int| 0 <= i < s.len() && s[i].modname@ == m && s[i].offset == offset
}

/// Index of a registration for `offset` into `module`, if any.
fn find_registration(s: &Vec<Breakpoint>, module: &String, offset: u64) -> (r: Option<usize>)
    ensures
        r is Some == has_registration(s@, module@, offset),
{
    let mut i: usize = 0;
    while i < s.len()
        invariant
            i <= s@.len(),
            forall|j: int| 0 <= j < i ==> !(s@[j].modname@ == module@ && s@[j].offset == offset),
        decreases s@.len() - i,
    {
        if s[i].offset == offset && s[i].modname == *module {
            return Some(i);
        }
        i = i + 1;
    }
    None
}

/// The pending step-over after the breakpoints in `[start, end]` are
/// dropped: forgotten if its breakpoint was among them.
pub open spec fn rearm_after(rearm: Option<u64>, start: u64, end: u64) -> Option<u64> {
    match rearm {
        Some(t) => if start <= t <= end {
            None
        } else {
            rearm
        },
        None => None,
    }
}

/// Index of the first loaded module at `base`, if any.
fn find_module(s: &Vec<(String, u64)>, base: u64) -> (r: Option<usize>)
    ensures
        match r {
            Some(i) => i < s@.len() && s@[i as int].1 == base,
            None => forall|j: int| 0 <= j < s@.len() ==> s@[j].1 != base,
        },
{
    let mut i: usize = 0;
    while i < s.len()
        invariant
            i <= s@.len(),
            forall|j: int| 0 <= j < i ==> s@[j].1 != base,
        decreases s@.len() - i,
    {
        if s[i].1 == base {
            return Some(i);
        }
        i = i + 1;
    }
    None
}

impl Inferior {
    /// Registers a breakpoint at `offset` into `module`, labelled `name` and
    /// `nameoff`, to be applied when the module is loaded; widens the
    /// module's recorded bounds to take in `offset`. A module and offset
    /// already registered are refused and nothing changes.
    pub fn register_breakpoint(
        &mut self,
        module: String,
        offset: u64,
        name: String,
        nameoff: u64,
        typ: BreakpointType,
    ) -> (r: Result<(), DebugError>)
        ensures
            has_registration(old(self)@.target_breakpoints, module@, offset) ==> r == Err::<
                (),
                DebugError,
            >(DebugError::DuplicateBreakpoint(offset)) && final(self)@ == old(self)@,
            !has_registration(old(self)@.target_breakpoints, module@, offset) ==> {
                let bp = final(self)@.target_breakpoints.last();
                &&& r == Ok::<(), DebugError>(())
                &&& final(self)@ == (InferiorView {
                    target_breakpoints: old(self)@.target_breakpoints.push(bp),
                    breakpoint_bounds: final(self)@.breakpoint_bounds,
                    ..old(self)@
                })
                &&& bp.offset == offset
                &&& !bp.enabled
                &&& bp.typ == typ
                &&& bp.funcname == name
                &&& bp.funcoff == nameoff
                &&& bp.modname == module
                &&& bp.freq == 0
                &&& bounds_of(final(self)@.breakpoint_bounds, module@) == Some(
                    widened(bounds_of(old(self)@.breakpoint_bounds, module@), offset),
                )
                &&& forall|m: Seq<char>|
                    m != module@ ==> bounds_of(final(self)@.breakpoint_bounds, m) == bounds_of(
                        old(self)@.breakpoint_bounds,
                        m,
                    )
            },
    {
        if find_registration(&self.target_breakpoints, &module, offset).is_some() {
            return Err(DebugError::DuplicateBreakpoint(offset));
        }
        let ghost old_bounds = self.breakpoint_bounds@;
        match find_bounds(&self.breakpoint_bounds, &module) {
            Some(i) => {
                let (n, lo, hi) = self.breakpoint_bounds.remove(i);
                let nlo = if offset < lo {
                    offset
                } else {
                    lo
                };
                let nhi = if offset > hi {
                    offset
                } else {
                    hi
                };
                self.breakpoint_bounds.insert(i, (n, nlo, nhi));
                proof {
                    assert(self.breakpoint_bounds@ =~= old_bounds.update(i as int, (n, nlo, nhi)));
                    lemma_bounds_at(old_bounds, module@, i as int);
                    lemma_bounds_at(self.breakpoint_bounds@, module@, i as int);
                    assert forall|m: Seq<char>| m != module@ implies bounds_of(
                        self.breakpoint_bounds@,
                        m,
                    ) == bounds_of(old_bounds, m) by {
                        lemma_bounds_update(old_bounds, module@, i as int, (n, nlo, nhi), m);
                    }
                }
            },
            None => {
                let key = module.clone();
                self.breakpoint_bounds.push((key, offset, offset));
                proof {
                    lemma_bounds_none(old_bounds, module@);
                    lemma_bounds_at(self.breakpoint_bounds@, module@, old_bounds.len() as int);
                    assert forall|m: Seq<char>| m != module@ implies bounds_of(
                        self.breakpoint_bounds@,
                        m,
                    ) == bounds_of(old_bounds, m) by {
                        lemma_bounds_push(old_bounds, (key, offset, offset), m);
                    }
                }
            },
        }
        self.target_breakpoints.push(
            Breakpoint {
                target_address: 0,
                aligned_address: 0,
                shift: 0,
                saved: 0,
                enabled: false,
                typ,
                freq: 0,
                offset,
                funcname: name,
                funcoff: nameoff,
                modname: module,
            },
        );
        Ok(())
    }

    /// Records that module `name` is loaded at `base`.
    pub fn register_module(&mut self, name: String, base: u64)
        ensures
            final(self)@ == (InferiorView {
                modules: old(self)@.modules.push((name, base)),
                ..old(self)@
            }),
    {
        self.modules.push((name, base));
    }

    /// The module loaded at `base` is gone: every breakpoint inside its
    /// recorded bounds (relative to `base`) is dropped without touching
    /// memory, and the module is forgotten. A base with no module loaded
    /// is refused.
    pub fn unregister_module(&mut self, base: u64) -> (r: Result<(), DebugError>)
        requires
            old(self).wf(),
        ensures
            final(self).wf(),
            (forall|j: int| 0 <= j < old(self)@.modules.len() ==> old(self)@.modules[j].1 != base)
                ==> r == Err::<(), DebugError>(DebugError::UnknownModule(base)) && final(self)@
                == old(self)@,
            r is Ok ==> exists|i: int|
                {
                    &&& 0 <= i < old(self)@.modules.len()
                    &&& old(self)@.modules[i].1 == base
                    &&& final(self)@.modules == old(self)@.modules.remove(i)
                    &&& final(self)@.breakpoints == after_unload(
                        old(self)@.breakpoints,
                        base,
                        bounds_of(old(self)@.breakpoint_bounds, old(self)@.modules[i].0@),
                    )
                    &&& final(self)@.rearm == match bounds_of(
                        old(self)@.breakpoint_bounds,
                        old(self)@.modules[i].0@,
                    ) {
                        Some((lo, hi)) => rearm_after(
                            old(self)@.rearm,
                            sat_add(base, lo),
                            sat_add(base, hi),
                        ),
                        None => old(self)@.rearm,
                    }
                    &&& final(self)@ == (InferiorView {
                        modules: final(self)@.modules,
                        breakpoints: final(self)@.breakpoints,
                        rearm: final(self)@.rearm,
                        ..old(self)@
                    })
                },
            (exists|j: int| 0 <= j < old(self)@.modules.len() && old(self)@.modules[j].1 == base)
                ==> r is Ok,
    {
        let i = match find_module(&self.modules, base) {
            Some(i) => i,
            None => {
                return Err(DebugError::UnknownModule(base));
            },
        };
        let ghost gi = i as int;
        let ghost old_self = self@;
        match find_bounds(&self.breakpoint_bounds, &self.modules[i].0) {
            None => {
                proof {
                    lemma_bounds_none(old_self.breakpoint_bounds, old_self.modules[gi].0@);
                }
            },
            Some(k) => {
                let lo = self.breakpoint_bounds[k].1;
                let hi = self.breakpoint_bounds[k].2;
                proof {
                    lemma_bounds_at(old_self.breakpoint_bounds, old_self.modules[gi].0@, k as int);
                }
                let start = if base <= u64::MAX - lo {
                    base + lo
                } else {
                    u64::MAX
                };
                let end = if base <= u64::MAX - hi {
                    base + hi
                } else {
                    u64::MAX
                };
                self.invalidate_range(start, end);
            },
        }
        self.modules.remove(i);
        proof {
            assert(self@.modules == old_self.modules.remove(gi));
        }
        Ok(())
    }

    /// Drops every breakpoint whose address lies in `[start, end]`, keeping
    /// the others in order; memory is not written.
    pub fn invalidate_range(&mut self, start: u64, end: u64)
        requires
            old(self).wf(),
        ensures
            final(self).wf(),
            final(self)@ == (InferiorView {
                breakpoints: old(self)@.breakpoints.filter(outside(start, end)),
                rearm: rearm_after(old(self)@.rearm, start, end),
                ..old(self)@
            }),
    {
        let ghost old_bps = self.breakpoints@;
        let ghost p = |b: Breakpoint| b.target_address < start || b.target_address > end;
        proof {
            assert(p =~= outside(start, end));
        }
        let mut rest: Vec<Breakpoint> = Vec::new();
        core::mem::swap(&mut rest, &mut self.breakpoints);
        let mut kept: Vec<Breakpoint> = Vec::new();
        let ghost n = old_bps.len();
        while rest.len() > 0
            invariant
                n == old_bps.len(),
                forall|x: Breakpoint|
                    #[trigger] p(x) == (x.target_address < start || x.target_address > end),
                rest.len() <= n,
                rest@ == old_bps.subrange(n - rest.len(), n as int),
                kept@ == old_bps.subrange(0, n - rest.len()).filter(p),
                forall|a: int| 0 <= a < kept@.len() ==> (#[trigger] kept@[a]).wf(),
                forall|a: int|
                    0 <= a < kept@.len() ==> exists|j: int|
                        0 <= j < n - rest.len() && #[trigger] kept@[a] == old_bps[j],
                forall|a: int, b: int|
                    0 <= a < b < kept@.len() ==> kept@[a].aligned_address
                        != kept@[b].aligned_address,
                forall|i: int| 0 <= i < old_bps.len() ==> (#[trigger] old_bps[i]).wf(),
                forall|i: int, j: int|
                    0 <= i < j < old_bps.len() ==> old_bps[i].aligned_address
                        != old_bps[j].aligned_address,
            decreases rest.len(),
        {
            let ghost k = n - rest.len();
            let b = rest.remove(0);
            proof {
                assert(b == old_bps[k]);
                assert(rest@ =~= old_bps.subrange(k + 1, n as int));
                assert(old_bps.subrange(0, k + 1).drop_last() =~= old_bps.subrange(0, k));
                assert(old_bps.subrange(0, k + 1).last() == b);
                let s1 = old_bps.subrange(0, k + 1);
                assert(s1.filter(p) == if p(b) {
                    old_bps.subrange(0, k).filter(p).push(b)
                } else {
                    old_bps.subrange(0, k).filter(p)
                }) by {
                    reveal(Seq::filter);
                }
            }
            if b.target_address < start || b.target_address > end {
                proof {
                    assert forall|a: int| 0 <= a < kept@.len() implies kept@[a].aligned_address
                        != b.aligned_address by {
                        let j = choose|j: int| 0 <= j < k && kept@[a] == old_bps[j];
                    }
                }
                kept.push(b);
                proof {
                    assert forall|a: int|
                        0 <= a < kept@.len() implies exists|j: int|
                            0 <= j < k + 1 && #[trigger] kept@[a] == old_bps[j] by {
                        if a < kept@.len() - 1 {
                            let j = choose|j: int| 0 <= j < k && kept@[a] == old_bps[j];
                            assert(kept@[a] == old_bps[j]);
                        } else {
                            assert(kept@[a] == old_bps[k]);
                        }
                    }
                }
            }
        }
        proof {
            assert(old_bps.subrange(0, n as int) =~= old_bps);
        }
        self.breakpoints = kept;
        if let Some(t) = self.rearm {
            if t >= start && t <= end {
                self.rearm = None;
            } else {
                proof {
                    let j = choose|j: int| 0 <= j < old_bps.len() && old_bps[j].target_address == t;
                    old_bps.lemma_filter_contains(p, j);
                    let a = choose|a: int| 0 <= a < self.breakpoints@.len() && self.breakpoints@[a] == old_bps[j];
                    assert(has_target(self.breakpoints@, t));
                }
            }
        }
    }
}

} // verus!

//! The particle collection driver.  One tick integrates every body in
//! population order, then scans all unordered pairs of the pre-tick
//! population once, resolving collisions and collecting spawned children,
//! which join the population only after the scan completes (they are never
//! collision-tested in the tick that created them).

use vstd::prelude::*;
use crate::fixmath::sat_spec;
use crate::vec2::Vec2;
use crate::body::{spec_update, Body, Env, DT_LIMIT};
use crate::collide::{child_matches, spec_collide};

verus! {

/// Every body in the sequence is well-formed.
pub open spec fn all_wf(bs: Seq<Body>) -> bool {
    forall|i: int| 0 <= i < bs.len() ==> (#[trigger] bs[i]).wf()
}

/// Phase one of a tick: every body advanced by `spec_update`.
pub open spec fn spec_integrate_all(bs: Seq<Body>, dt: int, env: Env) -> Seq<Body> {
    Seq::new(bs.len(), |k: int| spec_update(bs[k], dt, env))
}

/// Phase two, resumed from pair `(i, j)`: the population after all remaining
/// unordered pairs are resolved in order, and the spawned child templates in
/// the order the pairs produced them.
pub open spec fn spec_scan_from(bs: Seq<Body>, i: int, j: int) -> (Seq<Body>, Seq<Body>)
    decreases bs.len() - i, bs.len() + 1 - j,
{
    if i < 0 || j < i + 1 || i + 1 >= bs.len() {
        (bs, Seq::<Body>::empty())
    } else if j >= bs.len() {
        spec_scan_from(bs, i + 1, i + 2)
    } else {
        let (a, b, t) = spec_collide(bs[i], bs[j]);
        let bs2 = bs.update(i, a).update(j, b);
        let (fin, kids) = spec_scan_from(bs2, i, j + 1);
        (
            fin,
            match t {
                Option::Some(c) => seq![c] + kids,
                Option::None => kids,
            },
        )
    }
}

/// One whole tick over a population snapshot: the updated pre-existing
/// bodies and the templates of the children spawned during the pair scan.
pub open spec fn spec_step(bs: Seq<Body>, dt: int, env: Env) -> (Seq<Body>, Seq<Body>) {
    spec_scan_from(spec_integrate_all(bs, dt, env), 0, 1)
}

/// An insertion-ordered population of bodies under a fixed environment.
/// Bodies are appended at creation and as collision spawns; none is removed.
pub struct World {
    pub bodies: Vec<Body>,
    pub env: Env,
}

impl World {
    pub open spec fn wf(self) -> bool {
        self.env.wf() && all_wf(self.bodies@)
    }

    pub fn new(env: Env) -> (r: World)
        requires
            env.wf(),
        ensures
            r.env == env,
            r.bodies@ =~= Seq::<Body>::empty(),
            r.wf(),
    {
        World { bodies: Vec::new(), env }
    }

    pub fn body_count(&self) -> (r: usize)
        ensures
            r == self.bodies@.len(),
    {
        self.bodies.len()
    }

    /// Read-only snapshot of one body, for rendering and tracing.
    pub fn get_body(&self, i: usize) -> (r: Body)
        requires
            i < self.bodies@.len(),
        ensures
            r == self.bodies@[i as int],
    {
        self.bodies[i]
    }

    pub fn add_body(&mut self, b: Body)
        requires
            b.wf(),
        ensures
            final(self).bodies@ == old(self).bodies@.push(b),
            final(self).env == old(self).env,
            old(self).wf() ==> final(self).wf(),
    {
        self.bodies.push(b);
        proof {
            assert forall|k: int| 0 <= k < self.bodies@.len() implies (
            #[trigger] self.bodies@[k]).wf() || !old(self).wf() by {
                if k < old(self).bodies@.len() && old(self).wf() {
                    assert(old(self).bodies@[k].wf());
                }
            }
        }
    }

    /// Begin or end external manipulation of one body.
    pub fn set_held(&mut self, i: usize, held: bool)
        requires
            i < old(self).bodies@.len(),
        ensures
            final(self).bodies@ == old(self).bodies@.update(i as int, (Body {
                is_held: held,
                ..old(self).bodies@[i as int]
            })),
            final(self).env == old(self).env,
    {
        let mut b: Body = self.bodies[i];
        b.set_held(held);
        self.bodies[i] = b;
    }

    /// Drive a held body's position from outside.
    pub fn set_position(&mut self, i: usize, p: Vec2)
        requires
            i < old(self).bodies@.len(),
        ensures
            final(self).bodies@ == old(self).bodies@.update(i as int, (Body {
                pos: Vec2 { x: sat_spec(p.x as int) as i64, y: sat_spec(p.y as int) as i64 },
                ..old(self).bodies@[i as int]
            })),
            final(self).env == old(self).env,
    {
        let mut b: Body = self.bodies[i];
        b.set_position(p);
        self.bodies[i] = b;
    }

    /// Set the one-shot accumulated force of one body.
    pub fn apply_force(&mut self, i: usize, f: Vec2)
        requires
            i < old(self).bodies@.len(),
        ensures
            final(self).bodies@ == old(self).bodies@.update(i as int, (Body {
                force: Vec2 { x: sat_spec(f.x as int) as i64, y: sat_spec(f.y as int) as i64 },
                ..old(self).bodies@[i as int]
            })),
            final(self).env == old(self).env,
    {
        let mut b: Body = self.bodies[i];
        b.apply_force(f);
        self.bodies[i] = b;
    }

    /// Phase one alone: advance every body, with no pair resolution.
    pub fn update_all(&mut self, dt: i64)
        requires
            old(self).wf(),
            0 <= dt <= DT_LIMIT,
        ensures
            final(self).bodies@ == spec_integrate_all(old(self).bodies@, dt as int, old(
                self,
            ).env),
            final(self).env == old(self).env,
            final(self).wf(),
    {
        let n: usize = self.bodies.len();
        let ghost bs0 = self.bodies@;
        let ghost env0 = self.env;
        let mut k: usize = 0;
        while k < n
            invariant
                k <= n,
                n == bs0.len(),
                self.bodies@.len() == n,
                self.env == env0,
                env0.wf(),
                0 <= dt <= DT_LIMIT,
                all_wf(bs0),
                forall|t: int| 0 <= t < k ==> self.bodies@[t] == spec_update(bs0[t], dt as int,
                    env0) && (#[trigger] self.bodies@[t]).wf(),
                forall|t: int| k <= t < n ==> self.bodies@[t] == bs0[t],
            decreases n - k,
        {
            let env: Env = self.env;
            let mut b: Body = self.bodies[k];
            proof {
                assert(bs0[k as int].wf());
            }
            b.update(dt, &env);
            self.bodies[k] = b;
            k += 1;
        }
        proof {
            assert(self.bodies@ =~= spec_integrate_all(bs0, dt as int, env0));
        }
    }

    /// Advance the simulation by `dt` milli-seconds: integrate every body,
    /// resolve every unordered pair of the pre-tick population once, then
    /// append the children spawned during the scan.  The children match
    /// their templates up to the randomly drawn initial velocity.
    pub fn step(&mut self, dt: i64)
        requires
            old(self).wf(),
            0 <= dt <= DT_LIMIT,
        ensures
            final(self).env == old(self).env,
            final(self).wf(),
            ({
                let (fin, kids) = spec_step(old(self).bodies@, dt as int, old(self).env);
                &&& final(self).bodies@.len() == fin.len() + kids.len()
                &&& fin.len() == old(self).bodies@.len()
                &&& final(self).bodies@.subrange(0, fin.len() as int) == fin
                &&& forall|t: int| 0 <= t < kids.len() ==> child_matches(
                    #[trigger] final(self).bodies@[fin.len() + t], kids[t])
            }),
    {
        let n: usize = self.bodies.len();
        self.update_all(dt);
        let ghost ub = self.bodies@;
        let ghost scan0 = spec_scan_from(ub, 0, 1);
        proof {
            lemma_scan_len(ub, 0, 1);
        }
        let mut kids: Vec<Body> = Vec::new();
        let ghost mut templates: Seq<Body> = Seq::<Body>::empty();
        let mut i: usize = 0;
        while i < n
            invariant
                i <= n,
                n == self.bodies@.len(),
                n == ub.len(),
                self.env == old(self).env,
                all_wf(self.bodies@),
                scan0 == spec_scan_from(ub, 0, 1),
                spec_scan_from(self.bodies@, i as int, i as int + 1).0 == scan0.0,
                templates + spec_scan_from(self.bodies@, i as int, i as int + 1).1 == scan0.1,
                kids@.len() == templates.len(),
                forall|t: int| 0 <= t < templates.len() ==> child_matches(#[trigger] kids@[t],
                    templates[t]) && kids@[t].wf(),
            decreases n - i,
        {
            let mut j: usize = i + 1;
            while j < n
                invariant
                    i + 1 <= j <= n,
                    i < n,
                    n == self.bodies@.len(),
                    n == ub.len(),
                    self.env == old(self).env,
                    all_wf(self.bodies@),
                    scan0 == spec_scan_from(ub, 0, 1),
                    spec_scan_from(self.bodies@, i as int, j as int).0 == scan0.0,
                    templates + spec_scan_from(self.bodies@, i as int, j as int).1 == scan0.1,
                    kids@.len() == templates.len(),
                    forall|t: int| 0 <= t < templates.len() ==> child_matches(
                        #[trigger] kids@[t], templates[t]) && kids@[t].wf(),
                decreases n - j,
            {
                let ghost prev = self.bodies@;
                let mut bi: Body = self.bodies[i];
                let mut bj: Body = self.bodies[j];
                proof {
                    assert(prev[i as int].wf());
                    assert(prev[j as int].wf());
                }
                let r: Option<Body> = bi.collide(&mut bj);
                self.bodies[i] = bi;
                self.bodies[j] = bj;
                proof {
                    let (a, b, t) = spec_collide(prev[i as int], prev[j as int]);
                    let bs2 = prev.update(i as int, a).update(j as int, b);
                    assert(self.bodies@ == bs2);
                    assert(spec_scan_from(prev, i as int, j as int).0 == spec_scan_from(bs2,
                        i as int, j as int + 1).0);
                    match t {
                        Option::Some(c) => {
                            assert(spec_scan_from(prev, i as int, j as int).1 == seq![c]
                                + spec_scan_from(bs2, i as int, j as int + 1).1);
                            templates = templates + seq![c];
                            assert(templates + spec_scan_from(bs2, i as int, j as int + 1).1
                                =~= scan0.1);
                        },
                        Option::None => {
                        },
                    }
                }
                if let Some(c) = r {
                    kids.push(c);
                }
                j += 1;
            }
            i += 1;
        }
        proof {
            assert(self.bodies@ == scan0.0);
            assert(templates =~= scan0.1);
        }
        // Append the children born during the scan.
        let ghost finseq = self.bodies@;
        let mut t: usize = 0;
        let kn: usize = kids.len();
        while t < kn
            invariant
                t <= kn,
                kn == kids@.len(),
                self.bodies@ == finseq + kids@.subrange(0, t as int),
                all_wf(finseq),
                forall|u: int| 0 <= u < kids@.len() ==> (#[trigger] kids@[u]).wf(),
                self.env == old(self).env,
            decreases kn - t,
        {
            let c: Body = kids[t];
            self.bodies.push(c);
            proof {
                assert(self.bodies@ =~= finseq + kids@.subrange(0, t as int + 1));
            }
            t += 1;
        }
        proof {
            assert(self.bodies@ == finseq + kids@.subrange(0, kn as int));
            assert(kids@.subrange(0, kn as int) =~= kids@);
            assert(self.bodies@.subrange(0, finseq.len() as int) =~= finseq);
            assert forall|u: int| 0 <= u < self.bodies@.len() implies (
            #[trigger] self.bodies@[u]).wf() by {
                if u < finseq.len() {
                    assert(finseq[u].wf());
                } else {
                    assert(kids@[u - finseq.len()].wf());
                }
            }
        }
    }
}

/// The pair scan never changes the population's length.
pub proof fn lemma_scan_len(bs: Seq<Body>, i: int, j: int)
    ensures
        spec_scan_from(bs, i, j).0.len() == bs.len(),
    decreases bs.len() - i, bs.len() + 1 - j,
{
    if i < 0 || j < i + 1 || i + 1 >= bs.len() {
    } else if j >= bs.len() {
        lemma_scan_len(bs, i + 1, i + 2);
    } else {
        let (a, b, t) = spec_collide(bs[i], bs[j]);
        let bs2 = bs.update(i, a).update(j, b);
        lemma_scan_len(bs2, i, j + 1);
    }
}

} // verus!

//! The consumer's local mirror of the last snapshot, kept in step by
//! applying classified events — only the `state` field of a mirrored
//! entity ever changes between snapshot fetches.

use vstd::prelude::*;

use crate::events::{DockerEvents, DockerEventsV};
use crate::parser::{ContainerInfo, ContainerInfoV};
use crate::text::str_eq;

verus! {

/// The mirrored listing and the entity the consumer has selected.
pub struct DockerApp {
    pub containers: Vec<ContainerInfo>,
    pub selected_container: Option<String>,
}

/// The views of a listing, in listing order.
pub open spec fn views_of(cs: Seq<ContainerInfo>) -> Seq<ContainerInfoV> {
    cs.map_values(|c: ContainerInfo| c@)
}

/// `c` with its lifecycle label replaced.
pub open spec fn with_state(c: ContainerInfoV, st: Seq<char>) -> ContainerInfoV {
    ContainerInfoV {
        id: c.id,
        command: c.command,
        names: c.names,
        created: c.created,
        image: c.image,
        state: st,
    }
}

/// The listing with the first entity whose id is `id` relabelled to
/// `st`; unchanged when no entity carries that id.
pub open spec fn set_state_first(cs: Seq<ContainerInfoV>, id: Seq<char>, st: Seq<char>) -> Seq<
    ContainerInfoV,
>
    decreases cs.len(),
{
    if cs.len() == 0 {
        cs
    } else if cs[0].id == id {
        cs.update(0, with_state(cs[0], st))
    } else {
        seq![cs[0]] + set_state_first(cs.drop_first(), id, st)
    }
}

/// What applying one classified event does to the mirror: a started or
/// stopped entity is relabelled `running` or `exited`; anything else
/// leaves the mirror untouched.
pub open spec fn spec_apply_event(cs: Seq<ContainerInfoV>, ev: DockerEventsV) -> Seq<
    ContainerInfoV,
> {
    match ev {
        DockerEventsV::Started(id) => set_state_first(cs, id, "running"@),
        DockerEventsV::Stopped(id) => set_state_first(cs, id, "exited"@),
        DockerEventsV::Other => cs,
    }
}

proof fn lemma_set_state_first_match(cs: Seq<ContainerInfoV>, id: Seq<char>, st: Seq<char>, f: int)
    requires
        0 <= f < cs.len(),
        cs[f].id == id,
        forall|k: int| 0 <= k < f ==> cs[k].id != id,
    ensures
        set_state_first(cs, id, st) == cs.update(f, with_state(cs[f], st)),
    decreases cs.len(),
{
    if f == 0 {
    } else {
        lemma_set_state_first_match(cs.drop_first(), id, st, f - 1);
        assert(seq![cs[0]] + cs.drop_first().update(f - 1, with_state(cs[f], st)) =~= cs.update(
            f,
            with_state(cs[f], st),
        ));
    }
}

proof fn lemma_set_state_first_nomatch(cs: Seq<ContainerInfoV>, id: Seq<char>, st: Seq<char>)
    requires
        forall|k: int| 0 <= k < cs.len() ==> cs[k].id != id,
    ensures
        set_state_first(cs, id, st) == cs,
    decreases cs.len(),
{
    if cs.len() == 0 {
    } else {
        lemma_set_state_first_nomatch(cs.drop_first(), id, st);
        assert(seq![cs[0]] + cs.drop_first() =~= cs);
    }
}

impl DockerApp {
    /// A fresh mirror holding `containers`, with nothing selected.
    pub fn new(containers: Vec<ContainerInfo>) -> (r: DockerApp)
        ensures
            r.containers == containers,
            r.selected_container is None,
    {
        DockerApp { containers, selected_container: None }
    }

    #[verifier::loop_isolation(false)]
    fn set_state(&mut self, id: &String, st: &str)
        ensures
            views_of(final(self).containers@) == set_state_first(
                views_of(old(self).containers@),
                id@,
                st@,
            ),
            final(self).selected_container == old(self).selected_container,
    {
        let n = self.containers.len();
        let mut i: usize = 0;
        while i < n
            invariant
                n == self.containers@.len(),
                i <= n,
                self.containers@ == old(self).containers@,
                self.selected_container == old(self).selected_container,
                forall|k: int| 0 <= k < i ==> views_of(self.containers@)[k].id != id@,
            decreases n - i,
        {
            if str_eq(self.containers[i].id.as_str(), id.as_str()) {
                let oldc = self.containers.remove(i);
                let newc = ContainerInfo {
                    id: oldc.id,
                    command: oldc.command,
                    names: oldc.names,
                    created: oldc.created,
                    image: oldc.image,
                    state: String::from_str(st),
                };
                self.containers.insert(i, newc);
                proof {
                    let pre = views_of(old(self).containers@);
                    assert forall|k: int| 0 <= k < pre.len() implies views_of(
                        self.containers@,
                    )[k] == pre.update(i as int, with_state(pre[i as int], st@))[k] by {
                        if k < i {
                            assert(self.containers@[k] == old(self).containers@[k]);
                        } else if k == i {
                        } else {
                            assert(self.containers@[k] == old(self).containers@[k]);
                        }
                    }
                    assert(views_of(self.containers@) =~= pre.update(
                        i as int,
                        with_state(pre[i as int], st@),
                    ));
                    lemma_set_state_first_match(pre, id@, st@, i as int);
                }
                return;
            }
            i += 1;
        }
        proof {
            lemma_set_state_first_nomatch(views_of(self.containers@), id@, st@);
        }
    }

    /// Applies one classified event to the mirror: the first entity with
    /// the event's id is relabelled, everything else stays as it was.
    pub fn apply_event(&mut self, event: &DockerEvents)
        ensures
            views_of(final(self).containers@) == spec_apply_event(
                views_of(old(self).containers@),
                event@,
            ),
            final(self).selected_container == old(self).selected_container,
    {
        match event {
            DockerEvents::StartContainer(d) => self.set_state(&d.container_id, "running"),
            DockerEvents::StopContainer(d) => self.set_state(&d.container_id, "exited"),
            DockerEvents::OtherEvent => {},
        }
    }

    /// Indices of the mirrored entities whose state equals `status`, in
    /// listing order — the compute half of rendering one status group.
    #[verifier::loop_isolation(false)]
    pub fn filter_with_status(&self, status: &str) -> (r: Vec<usize>)
        ensures
            r@.map_values(|u: usize| u as int) == matching_indices(
                views_of(self.containers@),
                status@,
            ),
    {
        let mut out: Vec<usize> = Vec::new();
        let mut i: usize = 0;
        proof {
            assert(views_of(self.containers@).subrange(0, 0) =~= Seq::<ContainerInfoV>::empty());
        }
        while i < self.containers.len()
            invariant
                i <= self.containers@.len(),
                out@.map_values(|u: usize| u as int) == matching_indices(
                    views_of(self.containers@).subrange(0, i as int),
                    status@,
                ),
            decreases self.containers@.len() - i,
        {
            proof {
                let cs = views_of(self.containers@);
                assert(cs.subrange(0, i as int + 1).drop_last() =~= cs.subrange(0, i as int));
                assert(cs.subrange(0, i as int + 1).last() == cs[i as int]);
            }
            if str_eq(self.containers[i].state.as_str(), status) {
                out.push(i);
            }
            i += 1;
            proof {
                assert(out@.map_values(|u: usize| u as int) =~= matching_indices(
                    views_of(self.containers@).subrange(0, i as int),
                    status@,
                ));
            }
        }
        proof {
            assert(views_of(self.containers@).subrange(
                0,
                self.containers@.len() as int,
            ) =~= views_of(self.containers@));
        }
        out
    }
}

/// Indices of the entities labelled `status`, in listing order.
pub open spec fn matching_indices(cs: Seq<ContainerInfoV>, status: Seq<char>) -> Seq<int>
    decreases cs.len(),
{
    if cs.len() == 0 {
        Seq::empty()
    } else {
        matching_indices(cs.drop_last(), status) + (if cs.last().state == status {
            seq![cs.len() - 1]
        } else {
            Seq::empty()
        })
    }
}

impl ContainerInfo {
    /// The canonical display name: the first listed name with its leading
    /// separator character removed.
    pub fn display_name(&self) -> (r: String)
        requires
            self@.names.len() >= 1,
            self@.names[0].len() >= 1,
        ensures
            r@ == self@.names[0].drop_first(),
    {
        let n0 = &self.names[0];
        let len = n0.as_str().unicode_len();
        let tail = n0.as_str().substring_char(1, len);
        proof {
            assert(self@.names[0] == self.names@[0]@);
            assert(tail@ =~= self@.names[0].drop_first());
        }
        String::from_str(tail)
    }

    /// The short form of the identifier: its first twelve characters.
    pub fn short_id(&self) -> (r: String)
        requires
            self@.id.len() >= 12,
        ensures
            r@ == self@.id.subrange(0, 12),
    {
        String::from_str(self.id.as_str().substring_char(0, 12))
    }
}

} // verus!

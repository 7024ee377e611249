use crate::instance::{Instance, InstanceModel};
use crate::instancelist::{
    indexes_only, lemma_rebuilt_indexes_only, lemma_views_full, rebuilt, views, InstanceList,
    InstanceListModel,
};
use crate::handles::{kept, lemma_kept, retain_live};
use crate::slab::{lemma_removed_by_init, removed_by, taken};
use vstd::prelude::*;

verus! {

/// `after` is `before` after a bulk removal by `f`: an instance is either
/// removed, and then `f` answered `true` on it, or untouched, and then `f`
/// answered `false`. Free handles stay free.
pub open spec fn removed_instances<F: Fn(&Instance) -> bool>(
    before: Seq<Option<InstanceModel>>,
    after: Seq<Option<InstanceModel>>,
    f: F,
) -> bool {
    &&& after.len() == before.len()
    &&& forall|i: int| 0 <= i < before.len() && (#[trigger] before[i]) is None ==> after[i] is None
    &&& forall|i: int|
        0 <= i < before.len() && (#[trigger] before[i]) is Some ==> {
            ||| after[i] is None && exists|inst: Instance|
                inst@ == before[i]->0 && call_ensures(f, (&inst,), true)
            ||| after[i] == before[i] && exists|inst: Instance|
                inst@ == before[i]->0 && call_ensures(f, (&inst,), false)
        }
}

/// Whether a removal took any instance.
pub open spec fn any_removed(before: Seq<Option<InstanceModel>>, after: Seq<Option<InstanceModel>>) -> bool {
    exists|i: int| 0 <= i < before.len() && (#[trigger] before[i]) is Some && after[i] is None
}

impl InstanceListModel {
    /// The store once the slab has become `slab` by a removal: where
    /// anything was removed, the order of drawing keeps what is still live
    /// and both indexes are built anew.
    pub open spec fn after_removal(self, slab: Seq<Option<InstanceModel>>) -> InstanceListModel {
        if any_removed(self.slab, slab) {
            InstanceListModel {
                slab,
                draw_order: kept(self.draw_order, slab),
                by_object: rebuilt(kept(self.draw_order, slab), slab, false),
                by_object_inherit: rebuilt(kept(self.draw_order, slab), slab, true),
            }
        } else {
            InstanceListModel { slab, ..self }
        }
    }
}

proof fn lemma_removed_views<F: Fn(&Instance) -> bool>(
    before: Seq<Option<Instance>>,
    after: Seq<Option<Instance>>,
    f: F,
)
    requires
        removed_by(before, after, f),
    ensures
        removed_instances(views(before), views(after), f),
        taken(views(before), views(after)) == taken(before, after).map_values(|i: Instance| i@),
        any_removed(views(before), views(after)) <==> taken(before, after).len() > 0,
        !any_removed(views(before), views(after)) ==> views(after) == views(before),
    decreases before.len(),
{
    let vb = views(before);
    let va = views(after);
    assert forall|i: int| 0 <= i < vb.len() && (#[trigger] vb[i]) is Some implies {
        ||| va[i] is None && exists|inst: Instance| inst@ == vb[i]->0 && call_ensures(f, (&inst,), true)
        ||| va[i] == vb[i] && exists|inst: Instance|
            inst@ == vb[i]->0 && call_ensures(f, (&inst,), false)
    } by {
        assert(before[i] is Some);
        let inst = before[i]->0;
        assert(inst@ == vb[i]->0);
    }
    assert forall|i: int| 0 <= i < vb.len() && (#[trigger] vb[i]) is None implies va[i] is None by {
        assert(before[i] is None);
    }
    if before.len() > 0 {
        let b0 = before.drop_last();
        let a0 = after.drop_last();
        lemma_removed_by_init(before, after, f);
        lemma_removed_views(b0, a0, f);
        assert(views(b0) =~= vb.drop_last());
        assert(views(a0) =~= va.drop_last());
        assert(taken(vb, va) =~= taken(before, after).map_values(|i: Instance| i@));
        if any_removed(views(b0), views(a0)) {
            let i = choose|i: int|
                0 <= i < views(b0).len() && (#[trigger] views(b0)[i]) is Some && views(a0)[i] is None;
            assert(vb[i] is Some && va[i] is None);
        }
        if any_removed(vb, va) {
            let i = choose|i: int| 0 <= i < vb.len() && (#[trigger] vb[i]) is Some && va[i] is None;
            if i < b0.len() {
                assert(views(b0)[i] is Some && views(a0)[i] is None);
            }
        }
        if !any_removed(vb, va) {
            assert forall|i: int| 0 <= i < vb.len() implies va[i] == vb[i] by {
                if vb[i] is Some {
                    assert(!(va[i] is None));
                } else {
                    assert(before[i] is None);
                }
            }
            assert(va =~= vb);
        }
    } else {
        assert(va =~= vb);
    }
}

/// What is kept of a list of handles depends only on which slots are
/// occupied, so it is the same for a slab and for its instances as values.
pub proof fn lemma_kept_views(order: Seq<usize>, s: Seq<Option<Instance>>)
    ensures
        kept(order, views(s)) == kept(order, s),
    decreases order.len(),
{
    lemma_views_full(s);
    if order.len() > 0 {
        lemma_kept_views(order.drop_last(), s);
    }
}

impl InstanceList {
    /// Drops from the order of drawing every handle that is no longer live.
    fn retain_live(&mut self)
        requires
            old(self).slab_wf(),
        ensures
            final(self).slab_wf(),
            final(self)@ == (InstanceListModel {
                draw_order: kept(old(self)@.draw_order, old(self)@.slab),
                ..old(self)@
            }),
    {
        let live = retain_live(&self.draw_order, &self.chunks);
        proof {
            lemma_kept_views(self.draw_order@, self.chunks@);
        }
        self.draw_order = live;
    }

    /// What follows a removal from the slab: where anything was removed, the
    /// order of drawing is compacted and both indexes are built anew.
    fn settle_removal(&mut self, any: bool, Ghost(before): Ghost<InstanceListModel>)
        requires
            old(self).slab_wf(),
            before.wf(),
            old(self)@ == (InstanceListModel { slab: old(self)@.slab, ..before }),
            any == any_removed(before.slab, old(self)@.slab),
            !any ==> old(self)@.slab == before.slab,
        ensures
            final(self).wf(),
            final(self)@ == before.after_removal(old(self)@.slab),
    {
        if any {
            self.retain_live();
            proof {
                lemma_kept(before.draw_order, self@.slab);
                assert(self@.draw_order.no_duplicates());
                assert forall|i: int| 0 <= i < self@.draw_order.len() implies self@.live(
                    #[trigger] self@.draw_order[i],
                ) by {}
                assert(indexes_only(Map::<i32, Seq<usize>>::empty(), self@.draw_order));
            }
            self.rebuild_maps();
        }
    }

    /// Builds both indexes anew; what they held does not matter.
    fn rebuild_maps(&mut self)
        requires
            old(self).slab_wf(),
            old(self)@.draw_order.no_duplicates(),
            forall|i: int|
                0 <= i < old(self)@.draw_order.len() ==> old(self)@.live(
                    #[trigger] old(self)@.draw_order[i],
                ),
        ensures
            final(self).wf(),
            final(self)@ == (InstanceListModel {
                by_object: rebuilt(old(self)@.draw_order, old(self)@.slab, false),
                by_object_inherit: rebuilt(old(self)@.draw_order, old(self)@.slab, true),
                ..old(self)@
            }),
    {
        self.object_id_map.clear();
        self.object_id_map_inherit.clear();
        proof {
            assert(self@.by_object =~= Map::<i32, Seq<usize>>::empty());
            assert(self@.by_object_inherit =~= Map::<i32, Seq<usize>>::empty());
        }
        self.refresh_maps();
    }

    /// What holds of `f` on every instance of the store holds of it on
    /// every value in the slab.
    proof fn lemma_callable<F: Fn(&Instance) -> bool>(&self, f: F)
        requires
            self.wf(),
            forall|inst: Instance, h: usize|
                self@.live(h) && inst@ == self@.inst(h) ==> call_requires(f, (&inst,)),
        ensures
            forall|i: int|
                0 <= i < self.chunks@.len() && self.chunks@[i] is Some ==> call_requires(
                    f,
                    (&self.chunks@[i]->0,),
                ),
    {
        let slab = self.chunks@;
        lemma_views_full(slab);
        self.chunks.lemma_fits();
        assert forall|i: int| 0 <= i < slab.len() && slab[i] is Some implies call_requires(
            f,
            (&slab[i]->0,),
        ) by {
            assert(self@.live(i as usize));
            assert(slab[i]->0@ == self@.inst(i as usize));
        }
    }

    /// Removes every instance for which `f` answers `true`. Where any was
    /// removed, the order of drawing keeps what is still live and both
    /// indexes are built anew.
    pub fn remove_with<F: Fn(&Instance) -> bool>(&mut self, f: F)
        requires
            old(self).wf(),
            forall|inst: Instance, h: usize|
                old(self)@.live(h) && inst@ == old(self)@.inst(h) ==> call_requires(f, (&inst,)),
        ensures
            final(self).wf(),
            removed_instances(old(self)@.slab, final(self)@.slab, f),
            final(self)@ == old(self)@.after_removal(final(self)@.slab),
    {
        let ghost before = self@;
        let ghost slab_before = self.chunks@;
        proof {
            self.lemma_callable(f);
        }
        let count = self.chunks.remove_with(f);
        proof {
            lemma_removed_views(slab_before, self.chunks@, f);
        }
        self.settle_removal(count > 0, Ghost(before));
    }

    /// Removes every instance for which `f` answers `true` and returns
    /// them, in the order of their handles. Where any was removed, the order
    /// of drawing keeps what is still live and both indexes are built anew.
    pub fn remove_as_vec<F: Fn(&Instance) -> bool>(&mut self, f: F) -> (instances: Vec<Instance>)
        requires
            old(self).wf(),
            forall|inst: Instance, h: usize|
                old(self)@.live(h) && inst@ == old(self)@.inst(h) ==> call_requires(f, (&inst,)),
        ensures
            final(self).wf(),
            removed_instances(old(self)@.slab, final(self)@.slab, f),
            final(self)@ == old(self)@.after_removal(final(self)@.slab),
            instances@.map_values(|i: Instance| i@) == taken(old(self)@.slab, final(self)@.slab),
    {
        let ghost before = self@;
        let ghost slab_before = self.chunks@;
        proof {
            self.lemma_callable(f);
        }
        let instances = self.chunks.remove_as_vec(f);
        proof {
            lemma_removed_views(slab_before, self.chunks@, f);
        }
        self.settle_removal(instances.len() > 0, Ghost(before));
        instances
    }
}

} // verus!

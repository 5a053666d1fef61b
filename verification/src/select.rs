//! Which program headers take part in building the process.

use vstd::prelude::*;
use crate::error::{Feature, LoadError};
use crate::image::{ProgramHeader, PT_DYNAMIC, PT_LOAD};

verus! {

/// Whether some header asks for dynamic linking.
pub open spec fn has_dynamic(segs: Seq<ProgramHeader>) -> bool {
    exists|i: int| 0 <= i < segs.len() && (#[trigger] segs[i]).is_dynamic()
}

/// Whether some header is loadable.
pub open spec fn has_load(segs: Seq<ProgramHeader>) -> bool {
    exists|i: int| 0 <= i < segs.len() && (#[trigger] segs[i]).is_load()
}

/// The loadable headers of `segs`, in table order.
pub open spec fn loadable(segs: Seq<ProgramHeader>) -> Seq<ProgramHeader>
    decreases segs.len(),
{
    if segs.len() == 0 {
        Seq::empty()
    } else {
        let rest = loadable(segs.drop_last());
        if segs.last().is_load() {
            rest.push(segs.last())
        } else {
            rest
        }
    }
}

/// The outcome of the selection: a dynamic header stops the load, whatever
/// else the table holds; without one, the loadable headers are the result,
/// and there has to be at least one. All other types are passed over.
pub open spec fn selection_of(segs: Seq<ProgramHeader>) -> Result<Seq<ProgramHeader>, LoadError> {
    if has_dynamic(segs) {
        Err(LoadError::UnsupportedFeature(Feature::DynamicLinking))
    } else if loadable(segs).len() == 0 {
        Err(LoadError::NoLoadableSegments)
    } else {
        Ok(loadable(segs))
    }
}

/// Every selected header is a loadable header of the table, and every
/// loadable header of the table is selected.
pub proof fn lemma_loadable_members(segs: Seq<ProgramHeader>)
    ensures
        forall|x: ProgramHeader|
            #![trigger loadable(segs).contains(x)]
            loadable(segs).contains(x) <==> segs.contains(x) && x.is_load(),
        loadable(segs).len() <= segs.len(),
        loadable(segs).len() == 0 <==> !has_load(segs),
    decreases segs.len(),
{
    if segs.len() > 0 {
        let front = segs.drop_last();
        let last = segs.last();
        lemma_loadable_members(front);
        assert forall|x: ProgramHeader|
            #![trigger loadable(segs).contains(x)]
            loadable(segs).contains(x) <==> segs.contains(x) && x.is_load() by {
            if loadable(segs).contains(x) {
                let k = choose|k: int| 0 <= k < loadable(segs).len() && loadable(segs)[k] == x;
                if last.is_load() && k == loadable(front).len() {
                    assert(segs[segs.len() - 1] == x);
                } else {
                    assert(loadable(front)[k] == x);
                    assert(loadable(front).contains(x));
                    let j = choose|j: int| 0 <= j < front.len() && front[j] == x;
                    assert(segs[j] == x);
                }
            }
            if segs.contains(x) && x.is_load() {
                let j = choose|j: int| 0 <= j < segs.len() && segs[j] == x;
                if j == segs.len() - 1 {
                    assert(loadable(segs)[loadable(front).len() as int] == x);
                } else {
                    assert(front[j] == x);
                    assert(front.contains(x));
                    assert(loadable(front).contains(x));
                    let k = choose|k: int| 0 <= k < loadable(front).len() && loadable(front)[k] == x;
                    assert(loadable(segs)[k] == x);
                }
            }
        }
        if has_load(segs) {
            let j = choose|j: int| 0 <= j < segs.len() && (#[trigger] segs[j]).is_load();
            assert(segs.contains(segs[j]));
            assert(loadable(segs).contains(segs[j]));
        }
        if loadable(segs).len() > 0 {
            let x = loadable(segs)[0];
            assert(loadable(segs).contains(x));
            let j = choose|j: int| 0 <= j < segs.len() && segs[j] == x;
            assert(segs[j].is_load());
        }
    }
}

/// Splits the table into the loadable headers and the rest, and refuses
/// what the loader cannot build.
pub fn select_loadable(segs: &Vec<ProgramHeader>) -> (r: Result<Vec<ProgramHeader>, LoadError>)
    ensures
        match r {
            Ok(v) => selection_of(segs@) == Ok::<Seq<ProgramHeader>, LoadError>(v@),
            Err(e) => selection_of(segs@) == Err::<Seq<ProgramHeader>, LoadError>(e),
        },
{
    let mut selected: Vec<ProgramHeader> = Vec::new();
    let mut i: usize = 0;
    while i < segs.len()
        invariant
            i <= segs@.len(),
            forall|k: int| 0 <= k < i ==> !(#[trigger] segs@[k]).is_dynamic(),
            selected@ == loadable(segs@.take(i as int)),
        decreases segs@.len() - i,
    {
        let seg: ProgramHeader = segs[i];
        proof {
            let next = segs@.take(i + 1);
            assert(next.drop_last() =~= segs@.take(i as int));
            assert(next.last() == seg);
        }
        if seg.p_type == PT_DYNAMIC {
            assert(segs@[i as int].is_dynamic());
            return Err(LoadError::UnsupportedFeature(Feature::DynamicLinking));
        }
        if seg.p_type == PT_LOAD {
            selected.push(seg);
        }
        i = i + 1;
    }
    assert(segs@.take(i as int) =~= segs@);
    if selected.len() == 0 {
        return Err(LoadError::NoLoadableSegments);
    }
    Ok(selected)
}

} // verus!

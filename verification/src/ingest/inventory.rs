//! Turning a parsed frame-analysis dump into a prepared asset inventory: one asset
//! per distinct hash of each binding kind, with what the draw calls say about it.
use vstd::prelude::*;
use crate::ingest::frame_analysis::{
    FrameAnalysisBinding, FrameAnalysisDraw, FrameAnalysisDrawCall, FrameAnalysisDump,
};
use crate::order::{
    ascending, lemma_ascending_exists, lemma_ascending_is, lemma_singleton_of, sorted_set_of,
    sorted_strict, text_lt,
};
use crate::domain::{
    AssetHashFields, AssetInternalStructure, AssetMetadata, AssetRecord, AssetSourceContext,
    ExtractedAssetRecord, PreparedAssetInventory, PreparedAssetInventoryContext,
};
use crate::ingest::pak_extractor::{normalize_path_for_json, slash_char};
use crate::text::{clone_opt_string, decimal, decimal_string, new_string, opt_view, push_str, views};

verus! {

broadcast use vstd::seq_lib::group_seq_properties;

// ---------------------------------------------------------------------------
// What the draw calls say about a hash
// ---------------------------------------------------------------------------

/// The binding kinds a draw call has at most one of.
#[derive(Debug, Clone, Copy, PartialEq, Eq)]
pub enum SingleKind {
    Ib,
    Vs,
    Ps,
    Cs,
}

/// The binding kinds a draw call has a list of, each with the shader it pairs with.
#[derive(Debug, Clone, Copy, PartialEq, Eq)]
pub enum ListKind {
    Vb,
    Tex,
}

pub open spec fn single(d: FrameAnalysisDrawCall, k: SingleKind) -> Option<FrameAnalysisBinding> {
    match k {
        SingleKind::Ib => d.ib_binding,
        SingleKind::Vs => d.vs_binding,
        SingleKind::Ps => d.ps_binding,
        SingleKind::Cs => d.cs_binding,
    }
}

pub open spec fn list(d: FrameAnalysisDrawCall, k: ListKind) -> Seq<FrameAnalysisBinding> {
    match k {
        ListKind::Vb => d.vb_bindings@,
        ListKind::Tex => d.ps_texture_bindings@,
    }
}

/// The shader a list binding pairs with: the vertex shader for vertex buffers,
/// the pixel shader for textures.
pub open spec fn partner(d: FrameAnalysisDrawCall, k: ListKind) -> Option<FrameAnalysisBinding> {
    match k {
        ListKind::Vb => d.vs_binding,
        ListKind::Tex => d.ps_binding,
    }
}

/// The single binding of kind `k` has hash `h`.
pub open spec fn single_is(d: FrameAnalysisDrawCall, k: SingleKind, h: Seq<char>) -> bool {
    single(d, k) is Some && single(d, k)->0.hash@ == h
}

/// Some binding of list kind `k` has hash `h`.
pub open spec fn list_has(d: FrameAnalysisDrawCall, k: ListKind, h: Seq<char>) -> bool {
    exists|i: int| 0 <= i < list(d, k).len() && (#[trigger] list(d, k)[i]).hash@ == h
}

/// The distinct hashes of the single bindings of kind `k`.
pub open spec fn single_hashes(ds: Seq<FrameAnalysisDrawCall>, k: SingleKind) -> Set<Seq<char>>
    decreases ds.len(),
{
    if ds.len() == 0 {
        Set::empty()
    } else {
        let rest = single_hashes(ds.drop_last(), k);
        match single(ds.last(), k) {
            Some(b) => rest.insert(b.hash@),
            None => rest,
        }
    }
}

pub open spec fn binding_hashes(bs: Seq<FrameAnalysisBinding>) -> Set<Seq<char>> {
    views(bs.map_values(|b: FrameAnalysisBinding| b.hash)).to_set()
}

/// The distinct hashes of the list bindings of kind `k`.
pub open spec fn list_hashes(ds: Seq<FrameAnalysisDrawCall>, k: ListKind) -> Set<Seq<char>>
    decreases ds.len(),
{
    if ds.len() == 0 {
        Set::empty()
    } else {
        list_hashes(ds.drop_last(), k).union(binding_hashes(list(ds.last(), k)))
    }
}

/// The draw calls whose single binding of kind `k` has hash `h`.
pub open spec fn single_calls(ds: Seq<FrameAnalysisDrawCall>, k: SingleKind, h: Seq<char>) -> Set<
    u32,
>
    decreases ds.len(),
{
    if ds.len() == 0 {
        Set::empty()
    } else {
        let rest = single_calls(ds.drop_last(), k, h);
        if single_is(ds.last(), k, h) {
            rest.insert(ds.last().drawcall)
        } else {
            rest
        }
    }
}

/// The draw calls with a list binding of kind `k` and hash `h`.
pub open spec fn list_calls(ds: Seq<FrameAnalysisDrawCall>, k: ListKind, h: Seq<char>) -> Set<u32>
    decreases ds.len(),
{
    if ds.len() == 0 {
        Set::empty()
    } else {
        let rest = list_calls(ds.drop_last(), k, h);
        if list_has(ds.last(), k, h) {
            rest.insert(ds.last().drawcall)
        } else {
            rest
        }
    }
}

/// The count a draw call reports: `IndexCount` of an indexed draw, `VertexCount` of a plain one.
pub open spec fn hint(d: FrameAnalysisDrawCall) -> Option<u32> {
    match d.draw {
        Some(FrameAnalysisDraw::Indexed { index_count, .. }) => Some(index_count),
        Some(FrameAnalysisDraw::NonIndexed { vertex_count, .. }) => Some(vertex_count),
        _ => None,
    }
}

pub open spec fn max_with(r: Option<u32>, c: u32) -> Option<u32> {
    match r {
        Some(m) => Some(if m >= c { m } else { c }),
        None => Some(c),
    }
}

/// The largest count of the draw calls that bind index buffer `h`.
pub open spec fn ib_max_count(ds: Seq<FrameAnalysisDrawCall>, h: Seq<char>) -> Option<u32>
    decreases ds.len(),
{
    if ds.len() == 0 {
        None
    } else {
        let rest = ib_max_count(ds.drop_last(), h);
        if single_is(ds.last(), SingleKind::Ib, h) && hint(ds.last()) is Some {
            max_with(rest, hint(ds.last())->0)
        } else {
            rest
        }
    }
}

/// The index format of the first draw call that binds index buffer `h` and names one.
pub open spec fn ib_format(ds: Seq<FrameAnalysisDrawCall>, h: Seq<char>) -> Option<Seq<char>>
    decreases ds.len(),
{
    if ds.len() == 0 {
        None
    } else {
        let rest = ib_format(ds.drop_last(), h);
        if rest is None && single_is(ds.last(), SingleKind::Ib, h) {
            match ds.last().ib_format {
                Some(f) => Some(f@),
                None => None,
            }
        } else {
            rest
        }
    }
}

/// The largest count of the draw calls that bind vertex buffer `h`.
pub open spec fn vb_max_count(ds: Seq<FrameAnalysisDrawCall>, h: Seq<char>) -> Option<u32>
    decreases ds.len(),
{
    if ds.len() == 0 {
        None
    } else {
        let rest = vb_max_count(ds.drop_last(), h);
        if list_has(ds.last(), ListKind::Vb, h) && hint(ds.last()) is Some {
            max_with(rest, hint(ds.last())->0)
        } else {
            rest
        }
    }
}

pub open spec fn dims_of(d: FrameAnalysisDrawCall) -> Option<(u32, u32, u32)> {
    match d.draw {
        Some(FrameAnalysisDraw::Compute { thread_group_x, thread_group_y, thread_group_z }) => Some(
            (thread_group_x, thread_group_y, thread_group_z),
        ),
        _ => None,
    }
}

/// The thread-group shapes compute shader `h` was dispatched with.
pub open spec fn cs_dims(ds: Seq<FrameAnalysisDrawCall>, h: Seq<char>) -> Set<(u32, u32, u32)>
    decreases ds.len(),
{
    if ds.len() == 0 {
        Set::empty()
    } else {
        let rest = cs_dims(ds.drop_last(), h);
        if single_is(ds.last(), SingleKind::Cs, h) && dims_of(ds.last()) is Some {
            rest.insert(dims_of(ds.last())->0)
        } else {
            rest
        }
    }
}

/// The slots a list binding with hash `h` sits in.
pub open spec fn binding_slots(bs: Seq<FrameAnalysisBinding>, h: Seq<char>) -> Set<Seq<char>>
    decreases bs.len(),
{
    if bs.len() == 0 {
        Set::empty()
    } else {
        let rest = binding_slots(bs.drop_last(), h);
        if bs.last().hash@ == h {
            rest.insert(bs.last().slot@)
        } else {
            rest
        }
    }
}

pub open spec fn list_slots(ds: Seq<FrameAnalysisDrawCall>, k: ListKind, h: Seq<char>) -> Set<
    Seq<char>,
>
    decreases ds.len(),
{
    if ds.len() == 0 {
        Set::empty()
    } else {
        list_slots(ds.drop_last(), k, h).union(binding_slots(list(ds.last(), k), h))
    }
}

/// The shaders paired with list binding `h` across the draw calls.
pub open spec fn partner_hashes(ds: Seq<FrameAnalysisDrawCall>, k: ListKind, h: Seq<char>) -> Set<
    Seq<char>,
>
    decreases ds.len(),
{
    if ds.len() == 0 {
        Set::empty()
    } else {
        let rest = partner_hashes(ds.drop_last(), k, h);
        if list_has(ds.last(), k, h) && partner(ds.last(), k) is Some {
            rest.insert(partner(ds.last(), k)->0.hash@)
        } else {
            rest
        }
    }
}

// ---------------------------------------------------------------------------
// Collecting hashes and aggregates
// ---------------------------------------------------------------------------

fn single_of(d: &FrameAnalysisDrawCall, k: SingleKind) -> (r: &Option<FrameAnalysisBinding>)
    ensures
        *r == single(*d, k),
{
    match k {
        SingleKind::Ib => &d.ib_binding,
        SingleKind::Vs => &d.vs_binding,
        SingleKind::Ps => &d.ps_binding,
        SingleKind::Cs => &d.cs_binding,
    }
}

fn list_of(d: &FrameAnalysisDrawCall, k: ListKind) -> (r: &Vec<FrameAnalysisBinding>)
    ensures
        r@ == list(*d, k),
{
    match k {
        ListKind::Vb => &d.vb_bindings,
        ListKind::Tex => &d.ps_texture_bindings,
    }
}

fn partner_of(d: &FrameAnalysisDrawCall, k: ListKind) -> (r: &Option<FrameAnalysisBinding>)
    ensures
        *r == partner(*d, k),
{
    match k {
        ListKind::Vb => &d.vs_binding,
        ListKind::Tex => &d.ps_binding,
    }
}

proof fn lemma_push_view(v: Seq<String>, s: String)
    ensures
        views(v.push(s)) == views(v).push(s@),
{
    assert(views(v.push(s)) =~= views(v).push(s@));
}

/// The distinct hashes of single bindings of kind `k`, ascending.
pub fn collect_single_hashes(dcs: &Vec<FrameAnalysisDrawCall>, k: SingleKind) -> (r: Vec<String>)
    ensures
        sorted_strict(views(r@)),
        views(r@).to_set() == single_hashes(dcs@, k),
{
    let mut all: Vec<String> = Vec::new();
    let mut i: usize = 0;
    proof {
        assert(views(all@).to_set() =~= Set::<Seq<char>>::empty());
        assert(dcs@.take(0) =~= Seq::<FrameAnalysisDrawCall>::empty());
    }
    while i < dcs.len()
        invariant
            i <= dcs@.len(),
            views(all@).to_set() == single_hashes(dcs@.take(i as int), k),
        decreases dcs.len() - i,
    {
        proof {
            assert(dcs@.take(i + 1).drop_last() =~= dcs@.take(i as int));
            assert(dcs@.take(i + 1).last() == dcs@[i as int]);
        }
        match single_of(&dcs[i], k) {
            Some(b) => {
                proof {
                    lemma_push_view(all@, b.hash);
                    assert(views(all@).push(b.hash@).to_set() =~= views(all@).to_set().insert(
                        b.hash@,
                    ));
                }
                all.push(b.hash.clone());
            },
            None => {},
        }
        i = i + 1;
    }
    proof {
        assert(dcs@.take(dcs@.len() as int) =~= dcs@);
    }
    sorted_set_of(all)
}

/// The distinct hashes of list bindings of kind `k`, ascending.
pub fn collect_list_hashes(dcs: &Vec<FrameAnalysisDrawCall>, k: ListKind) -> (r: Vec<String>)
    ensures
        sorted_strict(views(r@)),
        views(r@).to_set() == list_hashes(dcs@, k),
{
    let mut all: Vec<String> = Vec::new();
    let mut i: usize = 0;
    proof {
        assert(views(all@).to_set() =~= Set::<Seq<char>>::empty());
        assert(dcs@.take(0) =~= Seq::<FrameAnalysisDrawCall>::empty());
    }
    while i < dcs.len()
        invariant
            i <= dcs@.len(),
            views(all@).to_set() == list_hashes(dcs@.take(i as int), k),
        decreases dcs.len() - i,
    {
        proof {
            assert(dcs@.take(i + 1).drop_last() =~= dcs@.take(i as int));
            assert(dcs@.take(i + 1).last() == dcs@[i as int]);
        }
        let bs = list_of(&dcs[i], k);
        let ghost before = views(all@).to_set();
        let ghost hs = bs@.map_values(|b: FrameAnalysisBinding| b.hash);
        let mut j: usize = 0;
        proof {
            assert(views(hs.take(0)).to_set() =~= Set::<Seq<char>>::empty());
            assert(before =~= before.union(views(hs.take(0)).to_set()));
        }
        while j < bs.len()
            invariant
                j <= bs@.len(),
                hs == bs@.map_values(|b: FrameAnalysisBinding| b.hash),
                views(all@).to_set() == before.union(views(hs.take(j as int)).to_set()),
            decreases bs.len() - j,
        {
            proof {
                lemma_push_view(all@, bs@[j as int].hash);
                assert(views(hs.take(j + 1)) =~= views(hs.take(j as int)).push(bs@[j as int].hash@));
                assert(views(all@).push(bs@[j as int].hash@).to_set() =~= views(all@).to_set().insert(
                    bs@[j as int].hash@,
                ));
                assert(views(hs.take(j as int)).push(bs@[j as int].hash@).to_set()
                    =~= views(hs.take(j as int)).to_set().insert(bs@[j as int].hash@));
                assert(before.union(views(hs.take(j + 1)).to_set()) =~= before.union(
                    views(hs.take(j as int)).to_set(),
                ).insert(bs@[j as int].hash@));
            }
            all.push(bs[j].hash.clone());
            j = j + 1;
        }
        proof {
            assert(hs.take(bs@.len() as int) =~= hs);
        }
        i = i + 1;
    }
    proof {
        assert(dcs@.take(dcs@.len() as int) =~= dcs@);
    }
    sorted_set_of(all)
}

fn has_hash(bs: &Vec<FrameAnalysisBinding>, h: &String) -> (r: bool)
    ensures
        r == exists|i: int| 0 <= i < bs@.len() && (#[trigger] bs@[i]).hash@ == h@,
{
    let mut i: usize = 0;
    while i < bs.len()
        invariant
            i <= bs@.len(),
            forall|j: int| 0 <= j < i ==> (#[trigger] bs@[j]).hash@ != h@,
        decreases bs.len() - i,
    {
        if crate::text::str_eq(bs[i].hash.as_str(), h.as_str()) {
            return true;
        }
        i = i + 1;
    }
    false
}

fn single_is_exec(d: &FrameAnalysisDrawCall, k: SingleKind, h: &String) -> (r: bool)
    ensures
        r == single_is(*d, k, h@),
{
    match single_of(d, k) {
        Some(b) => crate::text::str_eq(b.hash.as_str(), h.as_str()),
        None => false,
    }
}

/// Adds `x` to a list of distinct numbers unless it is there.
fn insert_distinct_u32(v: &mut Vec<u32>, x: u32)
    requires
        old(v)@.no_duplicates(),
    ensures
        final(v)@.no_duplicates(),
        final(v)@.to_set() == old(v)@.to_set().insert(x),
{
    let mut i: usize = 0;
    while i < v.len()
        invariant
            i <= v@.len(),
            v@ == old(v)@,
            old(v)@.no_duplicates(),
            forall|j: int| 0 <= j < i ==> v@[j] != x,
        decreases v.len() - i,
    {
        if v[i] == x {
            proof {
                assert(v@.to_set() =~= v@.to_set().insert(x));
            }
            return;
        }
        i = i + 1;
    }
    proof {
        assert(v@.push(x).to_set() =~= v@.to_set().insert(x));
    }
    v.push(x);
}

/// How many distinct draw calls bind hash `h` as their single binding of kind `k`.
pub fn single_call_count(dcs: &Vec<FrameAnalysisDrawCall>, k: SingleKind, h: &String) -> (r: usize)
    ensures
        r == single_calls(dcs@, k, h@).len(),
{
    let mut ids: Vec<u32> = Vec::new();
    let mut i: usize = 0;
    proof {
        assert(ids@.to_set() =~= Set::<u32>::empty());
        assert(dcs@.take(0) =~= Seq::<FrameAnalysisDrawCall>::empty());
    }
    while i < dcs.len()
        invariant
            i <= dcs@.len(),
            ids@.no_duplicates(),
            ids@.to_set() == single_calls(dcs@.take(i as int), k, h@),
        decreases dcs.len() - i,
    {
        proof {
            assert(dcs@.take(i + 1).drop_last() =~= dcs@.take(i as int));
            assert(dcs@.take(i + 1).last() == dcs@[i as int]);
        }
        if single_is_exec(&dcs[i], k, h) {
            insert_distinct_u32(&mut ids, dcs[i].drawcall);
        }
        i = i + 1;
    }
    proof {
        assert(dcs@.take(dcs@.len() as int) =~= dcs@);
        ids@.unique_seq_to_set();
    }
    ids.len()
}

/// How many distinct draw calls bind hash `h` in their list of kind `k`.
pub fn list_call_count(dcs: &Vec<FrameAnalysisDrawCall>, k: ListKind, h: &String) -> (r: usize)
    ensures
        r == list_calls(dcs@, k, h@).len(),
{
    let mut ids: Vec<u32> = Vec::new();
    let mut i: usize = 0;
    proof {
        assert(ids@.to_set() =~= Set::<u32>::empty());
        assert(dcs@.take(0) =~= Seq::<FrameAnalysisDrawCall>::empty());
    }
    while i < dcs.len()
        invariant
            i <= dcs@.len(),
            ids@.no_duplicates(),
            ids@.to_set() == list_calls(dcs@.take(i as int), k, h@),
        decreases dcs.len() - i,
    {
        proof {
            assert(dcs@.take(i + 1).drop_last() =~= dcs@.take(i as int));
            assert(dcs@.take(i + 1).last() == dcs@[i as int]);
        }
        if has_hash(list_of(&dcs[i], k), h) {
            insert_distinct_u32(&mut ids, dcs[i].drawcall);
        }
        i = i + 1;
    }
    proof {
        assert(dcs@.take(dcs@.len() as int) =~= dcs@);
        ids@.unique_seq_to_set();
    }
    ids.len()
}

fn max_with_exec(r: Option<u32>, c: u32) -> (o: Option<u32>)
    ensures
        o == max_with(r, c),
{
    match r {
        Some(m) => Some(
            if m >= c {
                m
            } else {
                c
            },
        ),
        None => Some(c),
    }
}

/// The largest count and the first named format of index buffer `h`.
pub fn ib_aggregate(dcs: &Vec<FrameAnalysisDrawCall>, h: &String) -> (r: (Option<u32>, Option<String>))
    ensures
        r.0 == ib_max_count(dcs@, h@),
        match r.1 {
            Some(f) => ib_format(dcs@, h@) == Some(f@),
            None => ib_format(dcs@, h@) is None,
        },
{
    let mut max: Option<u32> = None;
    let mut fmt: Option<String> = None;
    let mut i: usize = 0;
    proof {
        assert(dcs@.take(0) =~= Seq::<FrameAnalysisDrawCall>::empty());
    }
    while i < dcs.len()
        invariant
            i <= dcs@.len(),
            max == ib_max_count(dcs@.take(i as int), h@),
            match fmt {
                Some(f) => ib_format(dcs@.take(i as int), h@) == Some(f@),
                None => ib_format(dcs@.take(i as int), h@) is None,
            },
        decreases dcs.len() - i,
    {
        proof {
            assert(dcs@.take(i + 1).drop_last() =~= dcs@.take(i as int));
            assert(dcs@.take(i + 1).last() == dcs@[i as int]);
        }
        let d = &dcs[i];
        if single_is_exec(d, SingleKind::Ib, h) {
            match d.draw_count_hint() {
                Some(c) => {
                    max = max_with_exec(max, c);
                },
                None => {},
            }
            if fmt.is_none() {
                fmt = match &d.ib_format {
                    Some(f) => Some(f.clone()),
                    None => None,
                };
            }
        }
        i = i + 1;
    }
    proof {
        assert(dcs@.take(dcs@.len() as int) =~= dcs@);
    }
    (max, fmt)
}

/// The largest count of the draw calls that bind vertex buffer `h`.
pub fn vb_max(dcs: &Vec<FrameAnalysisDrawCall>, h: &String) -> (r: Option<u32>)
    ensures
        r == vb_max_count(dcs@, h@),
{
    let mut max: Option<u32> = None;
    let mut i: usize = 0;
    proof {
        assert(dcs@.take(0) =~= Seq::<FrameAnalysisDrawCall>::empty());
    }
    while i < dcs.len()
        invariant
            i <= dcs@.len(),
            max == vb_max_count(dcs@.take(i as int), h@),
        decreases dcs.len() - i,
    {
        proof {
            assert(dcs@.take(i + 1).drop_last() =~= dcs@.take(i as int));
            assert(dcs@.take(i + 1).last() == dcs@[i as int]);
        }
        let d = &dcs[i];
        if has_hash(&d.vb_bindings, h) {
            match d.draw_count_hint() {
                Some(c) => {
                    max = max_with_exec(max, c);
                },
                None => {},
            }
        }
        i = i + 1;
    }
    proof {
        assert(dcs@.take(dcs@.len() as int) =~= dcs@);
    }
    max
}

/// The distinct thread-group shapes compute shader `h` was dispatched with.
pub fn cs_dims_of(dcs: &Vec<FrameAnalysisDrawCall>, h: &String) -> (r: Vec<(u32, u32, u32)>)
    ensures
        r@.no_duplicates(),
        r@.to_set() == cs_dims(dcs@, h@),
{
    let mut dims: Vec<(u32, u32, u32)> = Vec::new();
    let mut i: usize = 0;
    proof {
        assert(dims@.to_set() =~= Set::<(u32, u32, u32)>::empty());
        assert(dcs@.take(0) =~= Seq::<FrameAnalysisDrawCall>::empty());
    }
    while i < dcs.len()
        invariant
            i <= dcs@.len(),
            dims@.no_duplicates(),
            dims@.to_set() == cs_dims(dcs@.take(i as int), h@),
        decreases dcs.len() - i,
    {
        proof {
            assert(dcs@.take(i + 1).drop_last() =~= dcs@.take(i as int));
            assert(dcs@.take(i + 1).last() == dcs@[i as int]);
        }
        let d = &dcs[i];
        if single_is_exec(d, SingleKind::Cs, h) {
            match &d.draw {
                Some(FrameAnalysisDraw::Compute { thread_group_x, thread_group_y, thread_group_z }) => {
                    let x = (*thread_group_x, *thread_group_y, *thread_group_z);
                    let mut found = false;
                    let mut j: usize = 0;
                    while j < dims.len()
                        invariant
                            j <= dims@.len(),
                            found == exists|m: int| 0 <= m < j && dims@[m] == x,
                        decreases dims.len() - j,
                    {
                        if dims[j].0 == x.0 && dims[j].1 == x.1 && dims[j].2 == x.2 {
                            found = true;
                        }
                        j = j + 1;
                    }
                    if !found {
                        proof {
                            assert(dims@.push(x).to_set() =~= dims@.to_set().insert(x));
                        }
                        dims.push(x);
                    } else {
                        proof {
                            assert(dims@.to_set() =~= dims@.to_set().insert(x));
                        }
                    }
                },
                _ => {},
            }
        }
        i = i + 1;
    }
    proof {
        assert(dcs@.take(dcs@.len() as int) =~= dcs@);
    }
    dims
}

/// The distinct slots list binding `h` sits in, ascending.
pub fn list_slots_of(dcs: &Vec<FrameAnalysisDrawCall>, k: ListKind, h: &String) -> (r: Vec<String>)
    ensures
        sorted_strict(views(r@)),
        views(r@).to_set() == list_slots(dcs@, k, h@),
{
    let mut all: Vec<String> = Vec::new();
    let mut i: usize = 0;
    proof {
        assert(views(all@).to_set() =~= Set::<Seq<char>>::empty());
        assert(dcs@.take(0) =~= Seq::<FrameAnalysisDrawCall>::empty());
    }
    while i < dcs.len()
        invariant
            i <= dcs@.len(),
            views(all@).to_set() == list_slots(dcs@.take(i as int), k, h@),
        decreases dcs.len() - i,
    {
        proof {
            assert(dcs@.take(i + 1).drop_last() =~= dcs@.take(i as int));
            assert(dcs@.take(i + 1).last() == dcs@[i as int]);
        }
        let bs = list_of(&dcs[i], k);
        let ghost before = views(all@).to_set();
        let mut j: usize = 0;
        proof {
            assert(bs@.take(0) =~= Seq::<FrameAnalysisBinding>::empty());
            assert(before =~= before.union(binding_slots(bs@.take(0), h@)));
        }
        while j < bs.len()
            invariant
                j <= bs@.len(),
                views(all@).to_set() == before.union(binding_slots(bs@.take(j as int), h@)),
            decreases bs.len() - j,
        {
            proof {
                assert(bs@.take(j + 1).drop_last() =~= bs@.take(j as int));
                assert(bs@.take(j + 1).last() == bs@[j as int]);
            }
            if crate::text::str_eq(bs[j].hash.as_str(), h.as_str()) {
                proof {
                    lemma_push_view(all@, bs@[j as int].slot);
                    assert(views(all@).push(bs@[j as int].slot@).to_set() =~= views(
                        all@,
                    ).to_set().insert(bs@[j as int].slot@));
                    assert(before.union(binding_slots(bs@.take(j + 1), h@)) =~= before.union(
                        binding_slots(bs@.take(j as int), h@),
                    ).insert(bs@[j as int].slot@));
                }
                all.push(bs[j].slot.clone());
            }
            j = j + 1;
        }
        proof {
            assert(bs@.take(bs@.len() as int) =~= bs@);
        }
        i = i + 1;
    }
    proof {
        assert(dcs@.take(dcs@.len() as int) =~= dcs@);
    }
    sorted_set_of(all)
}

/// The distinct shaders paired with list binding `h`, ascending.
pub fn partner_hashes_of(dcs: &Vec<FrameAnalysisDrawCall>, k: ListKind, h: &String) -> (r: Vec<
    String,
>)
    ensures
        sorted_strict(views(r@)),
        views(r@).to_set() == partner_hashes(dcs@, k, h@),
{
    let mut all: Vec<String> = Vec::new();
    let mut i: usize = 0;
    proof {
        assert(views(all@).to_set() =~= Set::<Seq<char>>::empty());
        assert(dcs@.take(0) =~= Seq::<FrameAnalysisDrawCall>::empty());
    }
    while i < dcs.len()
        invariant
            i <= dcs@.len(),
            views(all@).to_set() == partner_hashes(dcs@.take(i as int), k, h@),
        decreases dcs.len() - i,
    {
        proof {
            assert(dcs@.take(i + 1).drop_last() =~= dcs@.take(i as int));
            assert(dcs@.take(i + 1).last() == dcs@[i as int]);
        }
        let d = &dcs[i];
        if has_hash(list_of(d, k), h) {
            match partner_of(d, k) {
                Some(p) => {
                    proof {
                        lemma_push_view(all@, p.hash);
                        assert(views(all@).push(p.hash@).to_set() =~= views(all@).to_set().insert(
                            p.hash@,
                        ));
                    }
                    all.push(p.hash.clone());
                },
                None => {},
            }
        }
        i = i + 1;
    }
    proof {
        assert(dcs@.take(dcs@.len() as int) =~= dcs@);
    }
    sorted_set_of(all)
}

// ---------------------------------------------------------------------------
// Asset records
// ---------------------------------------------------------------------------

/// What an inventory record says, apart from what every frame-analysis record shares.
pub struct RecordModel {
    pub id: Seq<char>,
    pub path: Seq<char>,
    pub kind: Seq<char>,
    pub vertex_count: Option<u32>,
    pub index_count: Option<u32>,
    pub vertex_buffer_count: Option<u32>,
    pub index_format: Option<Seq<char>>,
    pub tags: Seq<Seq<char>>,
    pub asset_hash: Option<Seq<char>>,
    pub shader_hash: Option<Seq<char>>,
    pub identity_tuple: Option<Seq<char>>,
}

/// `r` is the frame-analysis record that `m` describes, found under `root`: its
/// logical name is its id, its other metadata is empty, and its source is the
/// dump's `log.txt`.
pub open spec fn record_is(r: ExtractedAssetRecord, m: RecordModel, root: Option<Seq<char>>) -> bool {
    let md = r.asset.metadata;
    &&& r.asset.id@ == m.id
    &&& r.asset.path@ == m.path
    &&& opt_view(r.asset.kind) == Some(m.kind)
    &&& opt_view(md.logical_name) == Some(m.id)
    &&& md.vertex_count == m.vertex_count
    &&& md.index_count == m.index_count
    &&& md.material_slots is None
    &&& md.section_count is None
    &&& md.vertex_stride is None
    &&& md.vertex_buffer_count == m.vertex_buffer_count
    &&& opt_view(md.index_format) == m.index_format
    &&& md.primitive_topology is None
    &&& md.layout_markers@.len() == 0
    &&& md.internal_structure.is_empty()
    &&& views(md.tags@) == m.tags
    &&& opt_view(r.hash_fields.asset_hash) == m.asset_hash
    &&& opt_view(r.hash_fields.shader_hash) == m.shader_hash
    &&& r.hash_fields.signature is None
    &&& opt_view(r.hash_fields.identity_tuple) == m.identity_tuple
    &&& opt_view(r.source.extraction_tool) == Some("3dmigoto-frame-analysis"@)
    &&& opt_view(r.source.source_root) == root
    &&& opt_view(r.source.source_path) == Some("log.txt"@)
    &&& r.source.container_path is None
    &&& opt_view(r.source.source_kind) == Some("runtime_draw_call"@)
}

pub open spec fn draw_calls_tag(n: nat) -> Seq<char> {
    "draw_calls="@ + decimal(n)
}

pub open spec fn spec_ib_model(ds: Seq<FrameAnalysisDrawCall>, h: Seq<char>) -> RecordModel {
    let max = ib_max_count(ds, h);
    let fmt = ib_format(ds, h);
    RecordModel {
        id: "ib_"@ + h,
        path: "runtime/ib/"@ + h,
        kind: "index_buffer"@,
        vertex_count: None,
        index_count: max,
        vertex_buffer_count: None,
        index_format: fmt,
        tags: seq![draw_calls_tag(single_calls(ds, SingleKind::Ib, h).len())],
        asset_hash: Some(h),
        shader_hash: None,
        identity_tuple: Some(
            "fa|ib|idx_fmt:"@ + (match fmt {
                Some(f) => f,
                None => "none"@,
            }) + "|idx_count:"@ + decimal(
                match max {
                    Some(m) => m as nat,
                    None => 0,
                },
            ),
        ),
    }
}

pub open spec fn single_member(s: Set<Seq<char>>) -> Option<Seq<char>> {
    if s.len() == 1 {
        Some(s.choose())
    } else {
        None
    }
}

pub open spec fn spec_vb_model(ds: Seq<FrameAnalysisDrawCall>, h: Seq<char>) -> RecordModel {
    let shader = single_member(partner_hashes(ds, ListKind::Vb, h));
    RecordModel {
        id: "vb_"@ + h,
        path: "runtime/vb/"@ + h,
        kind: "vertex_buffer"@,
        vertex_count: vb_max_count(ds, h),
        index_count: None,
        vertex_buffer_count: Some(list_slots(ds, ListKind::Vb, h).len() as u32),
        index_format: None,
        tags: seq![draw_calls_tag(list_calls(ds, ListKind::Vb, h).len())],
        asset_hash: Some(h),
        shader_hash: shader,
        identity_tuple: match shader {
            Some(v) => Some("fa|vb|shader:"@ + v),
            None => None,
        },
    }
}

pub open spec fn spec_shader_model(
    ds: Seq<FrameAnalysisDrawCall>,
    k: SingleKind,
    prefix: Seq<char>,
    kind: Seq<char>,
    h: Seq<char>,
) -> RecordModel {
    RecordModel {
        id: prefix + "_"@ + h,
        path: "runtime/"@ + prefix + "/"@ + h,
        kind,
        vertex_count: None,
        index_count: None,
        vertex_buffer_count: None,
        index_format: None,
        tags: seq![draw_calls_tag(single_calls(ds, k, h).len())],
        asset_hash: None,
        shader_hash: Some(h),
        identity_tuple: None,
    }
}

pub open spec fn dims_text(d: (u32, u32, u32)) -> Seq<char> {
    decimal(d.0 as nat) + "x"@ + decimal(d.1 as nat) + "x"@ + decimal(d.2 as nat)
}

/// The thread-group shape of a compute shader dispatched with exactly one non-zero shape.
pub open spec fn cs_identity(dims: Set<(u32, u32, u32)>) -> Option<Seq<char>> {
    if dims.len() == 1 && dims.choose() != (0u32, 0u32, 0u32) {
        Some("fa|cs|tg:"@ + dims_text(dims.choose()))
    } else {
        None
    }
}

pub open spec fn spec_cs_model(ds: Seq<FrameAnalysisDrawCall>, h: Seq<char>) -> RecordModel {
    RecordModel {
        id: "cs_"@ + h,
        path: "runtime/cs/"@ + h,
        kind: "compute_shader"@,
        vertex_count: None,
        index_count: None,
        vertex_buffer_count: None,
        index_format: None,
        tags: seq![draw_calls_tag(single_calls(ds, SingleKind::Cs, h).len()), "wwmi-anchor-candidate"@],
        asset_hash: Some(h),
        shader_hash: None,
        identity_tuple: cs_identity(cs_dims(ds, h)),
    }
}

pub open spec fn spec_tex_model(ds: Seq<FrameAnalysisDrawCall>, h: Seq<char>) -> RecordModel {
    let ps = single_member(partner_hashes(ds, ListKind::Tex, h));
    let slot = single_member(list_slots(ds, ListKind::Tex, h));
    let base = seq![draw_calls_tag(list_calls(ds, ListKind::Tex, h).len()), "wwmi-anchor-candidate"@];
    RecordModel {
        id: "ps_tex_"@ + h,
        path: "runtime/ps_tex/"@ + h,
        kind: "texture_resource"@,
        vertex_count: None,
        index_count: None,
        vertex_buffer_count: None,
        index_format: None,
        tags: match slot {
            Some(sl) => base.push("ps_slot="@ + sl),
            None => base,
        },
        asset_hash: Some(h),
        shader_hash: ps,
        identity_tuple: match (ps, slot) {
            (Some(p), Some(sl)) => Some("fa|tex|ps:"@ + p + "|slot:"@ + sl),
            _ => None,
        },
    }
}

fn text2(a: &str, b: &str) -> (r: String)
    ensures
        r@ == a@ + b@,
{
    let mut s = new_string(a);
    push_str(&mut s, b);
    s
}

fn frame_analysis_source_context(source_root: Option<String>) -> (r: AssetSourceContext)
    ensures
        opt_view(r.extraction_tool) == Some("3dmigoto-frame-analysis"@),
        opt_view(r.source_root) == opt_view(source_root),
        opt_view(r.source_path) == Some("log.txt"@),
        r.container_path is None,
        opt_view(r.source_kind) == Some("runtime_draw_call"@),
{
    AssetSourceContext {
        extraction_tool: Some(new_string("3dmigoto-frame-analysis")),
        source_root,
        source_path: Some(new_string("log.txt")),
        container_path: None,
        source_kind: Some(new_string("runtime_draw_call")),
    }
}

fn record(
    id: String,
    path: String,
    kind: &str,
    metadata: AssetMetadata,
    hash_fields: AssetHashFields,
    root: &Option<String>,
) -> (r: ExtractedAssetRecord)
    ensures
        r.asset.id@ == id@,
        r.asset.path@ == path@,
        opt_view(r.asset.kind) == Some(kind@),
        r.asset.metadata == metadata,
        r.hash_fields == hash_fields,
        opt_view(r.source.extraction_tool) == Some("3dmigoto-frame-analysis"@),
        opt_view(r.source.source_root) == opt_view(*root),
        opt_view(r.source.source_path) == Some("log.txt"@),
        r.source.container_path is None,
        opt_view(r.source.source_kind) == Some("runtime_draw_call"@),
{
    ExtractedAssetRecord {
        asset: AssetRecord { id, path, kind: Some(new_string(kind)), metadata },
        hash_fields,
        source: frame_analysis_source_context(clone_opt_string(root)),
    }
}

fn plain_metadata(logical_name: String, tags: Vec<String>) -> (r: AssetMetadata)
    ensures
        opt_view(r.logical_name) == Some(logical_name@),
        r.vertex_count is None,
        r.index_count is None,
        r.material_slots is None,
        r.section_count is None,
        r.vertex_stride is None,
        r.vertex_buffer_count is None,
        r.index_format is None,
        r.primitive_topology is None,
        r.layout_markers@.len() == 0,
        r.internal_structure.is_empty(),
        views(r.tags@) == views(tags@),
{
    AssetMetadata {
        logical_name: Some(logical_name),
        vertex_count: None,
        index_count: None,
        material_slots: None,
        section_count: None,
        vertex_stride: None,
        vertex_buffer_count: None,
        index_format: None,
        primitive_topology: None,
        layout_markers: Vec::new(),
        internal_structure: AssetInternalStructure::default(),
        tags,
    }
}

fn count_tag(n: usize) -> (r: String)
    ensures
        r@ == draw_calls_tag(n as nat),
{
    let d = decimal_string(n);
    text2("draw_calls=", d.as_str())
}

fn ib_record(dcs: &Vec<FrameAnalysisDrawCall>, h: &String, root: &Option<String>) -> (r:
    ExtractedAssetRecord)
    ensures
        record_is(r, spec_ib_model(dcs@, h@), opt_view(*root)),
{
    let (max, fmt) = ib_aggregate(dcs, h);
    let count = single_call_count(dcs, SingleKind::Ib, h);
    let mut identity = new_string("fa|ib|idx_fmt:");
    match &fmt {
        Some(f) => push_str(&mut identity, f.as_str()),
        None => push_str(&mut identity, "none"),
    }
    push_str(&mut identity, "|idx_count:");
    let n = decimal_string(
        match max {
            Some(m) => m as usize,
            None => 0,
        },
    );
    push_str(&mut identity, n.as_str());
    let mut tags: Vec<String> = Vec::new();
    tags.push(count_tag(count));
    let mut md = plain_metadata(text2("ib_", h.as_str()), tags);
    md.index_count = max;
    md.index_format = fmt;
    let r = record(
        text2("ib_", h.as_str()),
        text2("runtime/ib/", h.as_str()),
        "index_buffer",
        md,
        AssetHashFields {
            asset_hash: Some(h.clone()),
            shader_hash: None,
            signature: None,
            identity_tuple: Some(identity),
        },
        root,
    );
    proof {
        assert(views(r.asset.metadata.tags@) =~= spec_ib_model(dcs@, h@).tags);
    }
    r
}

fn shader_record(
    dcs: &Vec<FrameAnalysisDrawCall>,
    k: SingleKind,
    prefix: &str,
    kind: &str,
    h: &String,
    root: &Option<String>,
) -> (r: ExtractedAssetRecord)
    ensures
        record_is(r, spec_shader_model(dcs@, k, prefix@, kind@, h@), opt_view(*root)),
{
    let count = single_call_count(dcs, k, h);
    let mut tags: Vec<String> = Vec::new();
    tags.push(count_tag(count));
    let mut id = text2(prefix, "_");
    push_str(&mut id, h.as_str());
    let mut path = text2("runtime/", prefix);
    push_str(&mut path, "/");
    push_str(&mut path, h.as_str());
    let md = plain_metadata(id.clone(), tags);
    let r = record(
        id,
        path,
        kind,
        md,
        AssetHashFields {
            asset_hash: None,
            shader_hash: Some(h.clone()),
            signature: None,
            identity_tuple: None,
        },
        root,
    );
    proof {
        assert(views(r.asset.metadata.tags@) =~= spec_shader_model(dcs@, k, prefix@, kind@, h@).tags);
    }
    r
}

fn single_of_sorted(v: &Vec<String>, Ghost(s): Ghost<Set<Seq<char>>>) -> (r: Option<String>)
    requires
        sorted_strict(views(v@)),
        views(v@).to_set() == s,
    ensures
        match r {
            Some(x) => single_member(s) == Some(x@),
            None => single_member(s) is None,
        },
{
    proof {
        lemma_singleton_of(views(v@), s);
    }
    if v.len() == 1 {
        Some(v[0].clone())
    } else {
        None
    }
}

fn vb_record(dcs: &Vec<FrameAnalysisDrawCall>, h: &String, root: &Option<String>) -> (r:
    ExtractedAssetRecord)
    ensures
        record_is(r, spec_vb_model(dcs@, h@), opt_view(*root)),
{
    let count = list_call_count(dcs, ListKind::Vb, h);
    let slots = list_slots_of(dcs, ListKind::Vb, h);
    proof {
        lemma_singleton_of(views(slots@), list_slots(dcs@, ListKind::Vb, h@));
    }
    let vs = partner_hashes_of(dcs, ListKind::Vb, h);
    let shader = single_of_sorted(&vs, Ghost(partner_hashes(dcs@, ListKind::Vb, h@)));
    let identity = match &shader {
        Some(v) => Some(text2("fa|vb|shader:", v.as_str())),
        None => None,
    };
    let mut tags: Vec<String> = Vec::new();
    tags.push(count_tag(count));
    let mut md = plain_metadata(text2("vb_", h.as_str()), tags);
    md.vertex_count = vb_max(dcs, h);
    md.vertex_buffer_count = Some(slots.len() as u32);
    let r = record(
        text2("vb_", h.as_str()),
        text2("runtime/vb/", h.as_str()),
        "vertex_buffer",
        md,
        AssetHashFields {
            asset_hash: Some(h.clone()),
            shader_hash: shader,
            signature: None,
            identity_tuple: identity,
        },
        root,
    );
    proof {
        assert(views(r.asset.metadata.tags@) =~= spec_vb_model(dcs@, h@).tags);
    }
    r
}

fn cs_record(dcs: &Vec<FrameAnalysisDrawCall>, h: &String, root: &Option<String>) -> (r:
    ExtractedAssetRecord)
    ensures
        record_is(r, spec_cs_model(dcs@, h@), opt_view(*root)),
{
    let count = single_call_count(dcs, SingleKind::Cs, h);
    let dims = cs_dims_of(dcs, h);
    let ghost ds = cs_dims(dcs@, h@);
    proof {
        dims@.unique_seq_to_set();
        if dims@.len() == 1 {
            assert(ds.contains(dims@[0]));
            assert(ds.contains(ds.choose()));
        }
    }
    let identity = if dims.len() == 1 {
        let (x, y, z) = dims[0];
        if x == 0 && y == 0 && z == 0 {
            None
        } else {
            let mut s = new_string("fa|cs|tg:");
            let a = decimal_string(x as usize);
            let b = decimal_string(y as usize);
            let c = decimal_string(z as usize);
            push_str(&mut s, a.as_str());
            push_str(&mut s, "x");
            push_str(&mut s, b.as_str());
            push_str(&mut s, "x");
            push_str(&mut s, c.as_str());
            proof {
                assert(dims@[0] == (x, y, z));
                assert(s@ =~= "fa|cs|tg:"@ + dims_text((x, y, z)));
            }
            Some(s)
        }
    } else {
        None
    };
    let mut tags: Vec<String> = Vec::new();
    tags.push(count_tag(count));
    tags.push(new_string("wwmi-anchor-candidate"));
    let md = plain_metadata(text2("cs_", h.as_str()), tags);
    let r = record(
        text2("cs_", h.as_str()),
        text2("runtime/cs/", h.as_str()),
        "compute_shader",
        md,
        AssetHashFields {
            asset_hash: Some(h.clone()),
            shader_hash: None,
            signature: None,
            identity_tuple: identity,
        },
        root,
    );
    proof {
        assert(views(r.asset.metadata.tags@) =~= spec_cs_model(dcs@, h@).tags);
    }
    r
}

fn tex_record(dcs: &Vec<FrameAnalysisDrawCall>, h: &String, root: &Option<String>) -> (r:
    ExtractedAssetRecord)
    ensures
        record_is(r, spec_tex_model(dcs@, h@), opt_view(*root)),
{
    let count = list_call_count(dcs, ListKind::Tex, h);
    let slots = list_slots_of(dcs, ListKind::Tex, h);
    let slot = single_of_sorted(&slots, Ghost(list_slots(dcs@, ListKind::Tex, h@)));
    let ps_hashes = partner_hashes_of(dcs, ListKind::Tex, h);
    let ps = single_of_sorted(&ps_hashes, Ghost(partner_hashes(dcs@, ListKind::Tex, h@)));
    let identity = match (&ps, &slot) {
        (Some(p), Some(sl)) => {
            let mut s = text2("fa|tex|ps:", p.as_str());
            push_str(&mut s, "|slot:");
            push_str(&mut s, sl.as_str());
            Some(s)
        },
        _ => None,
    };
    let mut tags: Vec<String> = Vec::new();
    tags.push(count_tag(count));
    tags.push(new_string("wwmi-anchor-candidate"));
    match &slot {
        Some(sl) => tags.push(text2("ps_slot=", sl.as_str())),
        None => {},
    }
    let md = plain_metadata(text2("ps_tex_", h.as_str()), tags);
    let r = record(
        text2("ps_tex_", h.as_str()),
        text2("runtime/ps_tex/", h.as_str()),
        "texture_resource",
        md,
        AssetHashFields {
            asset_hash: Some(h.clone()),
            shader_hash: ps,
            signature: None,
            identity_tuple: identity,
        },
        root,
    );
    proof {
        assert(views(r.asset.metadata.tags@) =~= spec_tex_model(dcs@, h@).tags);
    }
    r
}

// ---------------------------------------------------------------------------
// The inventory
// ---------------------------------------------------------------------------

/// The asset kinds of the inventory, in the order their paths sort.
#[derive(Debug, Clone, Copy, PartialEq, Eq)]
pub enum InventoryCategory {
    ComputeShader,
    IndexBuffer,
    PixelShader,
    PixelShaderTexture,
    VertexBuffer,
    VertexShader,
}

pub open spec fn category_model(ds: Seq<FrameAnalysisDrawCall>, c: InventoryCategory, h: Seq<char>) -> RecordModel {
    match c {
        InventoryCategory::ComputeShader => spec_cs_model(ds, h),
        InventoryCategory::IndexBuffer => spec_ib_model(ds, h),
        InventoryCategory::PixelShader => spec_shader_model(ds, SingleKind::Ps, "ps"@, "pixel_shader"@, h),
        InventoryCategory::PixelShaderTexture => spec_tex_model(ds, h),
        InventoryCategory::VertexBuffer => spec_vb_model(ds, h),
        InventoryCategory::VertexShader => spec_shader_model(ds, SingleKind::Vs, "vs"@, "vertex_shader"@, h),
    }
}

pub open spec fn category_hashes(ds: Seq<FrameAnalysisDrawCall>, c: InventoryCategory) -> Set<Seq<char>> {
    match c {
        InventoryCategory::ComputeShader => single_hashes(ds, SingleKind::Cs),
        InventoryCategory::IndexBuffer => single_hashes(ds, SingleKind::Ib),
        InventoryCategory::PixelShader => single_hashes(ds, SingleKind::Ps),
        InventoryCategory::PixelShaderTexture => list_hashes(ds, ListKind::Tex),
        InventoryCategory::VertexBuffer => list_hashes(ds, ListKind::Vb),
        InventoryCategory::VertexShader => single_hashes(ds, SingleKind::Vs),
    }
}

/// The records of one category: one per distinct hash, ascending.
pub open spec fn category_models(ds: Seq<FrameAnalysisDrawCall>, c: InventoryCategory) -> Seq<RecordModel> {
    ascending(category_hashes(ds, c)).map_values(|h: Seq<char>| category_model(ds, c, h))
}

/// All records of a dump: compute shaders, index buffers, pixel shaders, pixel-shader
/// textures, vertex buffers, vertex shaders; this is the order of their paths.
pub open spec fn inventory_models(ds: Seq<FrameAnalysisDrawCall>) -> Seq<RecordModel> {
    category_models(ds, InventoryCategory::ComputeShader) + category_models(
        ds,
        InventoryCategory::IndexBuffer,
    ) + category_models(ds, InventoryCategory::PixelShader) + category_models(
        ds,
        InventoryCategory::PixelShaderTexture,
    ) + category_models(ds, InventoryCategory::VertexBuffer) + category_models(
        ds,
        InventoryCategory::VertexShader,
    )
}

pub open spec fn records_are(rs: Seq<ExtractedAssetRecord>, ms: Seq<RecordModel>, root: Option<Seq<char>>) -> bool {
    rs.len() == ms.len() && forall|i: int| 0 <= i < rs.len() ==> record_is(#[trigger] rs[i], ms[i], root)
}

fn category_record(
    dcs: &Vec<FrameAnalysisDrawCall>,
    c: InventoryCategory,
    h: &String,
    root: &Option<String>,
) -> (r: ExtractedAssetRecord)
    ensures
        record_is(r, category_model(dcs@, c, h@), opt_view(*root)),
{
    match c {
        InventoryCategory::ComputeShader => cs_record(dcs, h, root),
        InventoryCategory::IndexBuffer => ib_record(dcs, h, root),
        InventoryCategory::PixelShader => shader_record(dcs, SingleKind::Ps, "ps", "pixel_shader", h, root),
        InventoryCategory::PixelShaderTexture => tex_record(dcs, h, root),
        InventoryCategory::VertexBuffer => vb_record(dcs, h, root),
        InventoryCategory::VertexShader => shader_record(dcs, SingleKind::Vs, "vs", "vertex_shader", h, root),
    }
}

fn category_hash_list(dcs: &Vec<FrameAnalysisDrawCall>, c: InventoryCategory) -> (r: Vec<String>)
    ensures
        views(r@) == ascending(category_hashes(dcs@, c)),
        r@.len() == category_hashes(dcs@, c).len(),
{
    let r = match c {
        InventoryCategory::ComputeShader => collect_single_hashes(dcs, SingleKind::Cs),
        InventoryCategory::IndexBuffer => collect_single_hashes(dcs, SingleKind::Ib),
        InventoryCategory::PixelShader => collect_single_hashes(dcs, SingleKind::Ps),
        InventoryCategory::PixelShaderTexture => collect_list_hashes(dcs, ListKind::Tex),
        InventoryCategory::VertexBuffer => collect_list_hashes(dcs, ListKind::Vb),
        InventoryCategory::VertexShader => collect_single_hashes(dcs, SingleKind::Vs),
    };
    proof {
        lemma_ascending_is(views(r@), category_hashes(dcs@, c));
        lemma_singleton_of(views(r@), category_hashes(dcs@, c));
    }
    r
}

fn append_category(
    assets: &mut Vec<ExtractedAssetRecord>,
    dcs: &Vec<FrameAnalysisDrawCall>,
    c: InventoryCategory,
    root: &Option<String>,
    Ghost(before): Ghost<Seq<RecordModel>>,
)
    requires
        records_are(old(assets)@, before, opt_view(*root)),
    ensures
        records_are(final(assets)@, before + category_models(dcs@, c), opt_view(*root)),
{
    let hashes = category_hash_list(dcs, c);
    let ghost hv = views(hashes@);
    let ghost model = |h: Seq<char>| category_model(dcs@, c, h);
    let mut i: usize = 0;
    proof {
        assert(before + hv.take(0).map_values(model) =~= before);
    }
    while i < hashes.len()
        invariant
            i <= hashes@.len(),
            hv == views(hashes@),
            hv == ascending(category_hashes(dcs@, c)),
            model == (|h: Seq<char>| category_model(dcs@, c, h)),
            records_are(assets@, before + hv.take(i as int).map_values(model), opt_view(*root)),
        decreases hashes.len() - i,
    {
        let rec = category_record(dcs, c, &hashes[i], root);
        proof {
            assert(hv[i as int] == hashes@[i as int]@);
            assert(before + hv.take(i + 1).map_values(model) =~= (before + hv.take(i as int).map_values(
                model,
            )).push(model(hv[i as int])));
        }
        assets.push(rec);
        i = i + 1;
    }
    proof {
        assert(hv.take(hashes@.len() as int) =~= hv);
    }
}

/// The dump folder as the inventory names it: `/`-separated, or nothing when unset.
pub open spec fn dump_root(dump_dir: Seq<char>) -> Option<Seq<char>> {
    if dump_dir.len() == 0 {
        None
    } else {
        Some(dump_dir.map_values(|c: char| slash_char(c)))
    }
}

pub open spec fn spec_inventory_note(dump: FrameAnalysisDump) -> Seq<char> {
    let ds = dump.draw_calls@;
    "Captured from "@ + (if dump.log_path@.len() == 0 {
        "FrameAnalysis/log.txt"@
    } else {
        dump.log_path@.map_values(|c: char| slash_char(c))
    }) + "; "@ + decimal(ds.len()) + " draw calls, "@ + decimal(
        single_hashes(ds, SingleKind::Ib).len(),
    ) + " unique IB hashes, "@ + decimal(list_hashes(ds, ListKind::Vb).len()) + " unique VB hashes"@
}

/// The prepared asset inventory of a frame-analysis dump: one asset per distinct index
/// buffer, vertex buffer, shader and pixel-shader texture hash, with the counts,
/// formats, slots and paired shaders its draw calls show, ordered by path.
pub fn build_prepared_inventory(dump: &FrameAnalysisDump, version_id: &str) -> (r: PreparedAssetInventory)
    ensures
        r.schema_version@ == "whashreonator.prepared-assets.v1"@,
        opt_view(r.context.extraction_tool) == Some("3dmigoto-frame-analysis"@),
        opt_view(r.context.extraction_kind) == Some("runtime_draw_call_hashes"@),
        opt_view(r.context.source_root) == dump_root(dump.dump_dir@),
        opt_view(r.context.version_id) == Some(version_id@),
        views(r.context.tags@) == seq!["frame-analysis"@, "wwmi"@],
        r.context.meaningful_content_coverage == Some(true),
        r.context.meaningful_character_coverage == Some(true),
        opt_view(r.context.note) == Some(spec_inventory_note(*dump)),
        records_are(r.assets@, inventory_models(dump.draw_calls@), dump_root(dump.dump_dir@)),
        sorted_strict(r.assets@.map_values(|a: ExtractedAssetRecord| a.asset.path@)),
{
    let dcs = &dump.draw_calls;
    let root: Option<String> = if dump.dump_dir.as_str().is_empty() {
        None
    } else {
        Some(normalize_path_for_json(dump.dump_dir.as_str()))
    };
    let log = if dump.log_path.as_str().is_empty() {
        new_string("FrameAnalysis/log.txt")
    } else {
        normalize_path_for_json(dump.log_path.as_str())
    };
    let ib_hashes = category_hash_list(dcs, InventoryCategory::IndexBuffer);
    let vb_hashes = category_hash_list(dcs, InventoryCategory::VertexBuffer);
    let mut note = text2("Captured from ", log.as_str());
    push_str(&mut note, "; ");
    let n = decimal_string(dcs.len());
    push_str(&mut note, n.as_str());
    push_str(&mut note, " draw calls, ");
    let n = decimal_string(ib_hashes.len());
    push_str(&mut note, n.as_str());
    push_str(&mut note, " unique IB hashes, ");
    let n = decimal_string(vb_hashes.len());
    push_str(&mut note, n.as_str());
    push_str(&mut note, " unique VB hashes");
    let mut assets: Vec<ExtractedAssetRecord> = Vec::new();
    let ghost ds = dcs@;
    proof {
        assert(records_are(assets@, Seq::<RecordModel>::empty(), opt_view(root)));
    }
    append_category(&mut assets, dcs, InventoryCategory::ComputeShader, &root, Ghost(Seq::empty()));
    let ghost m1 = Seq::<RecordModel>::empty() + category_models(ds, InventoryCategory::ComputeShader);
    append_category(&mut assets, dcs, InventoryCategory::IndexBuffer, &root, Ghost(m1));
    let ghost m2 = m1 + category_models(ds, InventoryCategory::IndexBuffer);
    append_category(&mut assets, dcs, InventoryCategory::PixelShader, &root, Ghost(m2));
    let ghost m3 = m2 + category_models(ds, InventoryCategory::PixelShader);
    append_category(&mut assets, dcs, InventoryCategory::PixelShaderTexture, &root, Ghost(m3));
    let ghost m4 = m3 + category_models(ds, InventoryCategory::PixelShaderTexture);
    append_category(&mut assets, dcs, InventoryCategory::VertexBuffer, &root, Ghost(m4));
    let ghost m5 = m4 + category_models(ds, InventoryCategory::VertexBuffer);
    append_category(&mut assets, dcs, InventoryCategory::VertexShader, &root, Ghost(m5));
    proof {
        assert(m5 + category_models(ds, InventoryCategory::VertexShader) =~= inventory_models(ds));
        inventory_paths_strictly_ascend(ds);
        assert(assets@.map_values(|a: ExtractedAssetRecord| a.asset.path@) =~= model_paths(
            inventory_models(ds),
        ));
    }
    let mut tags: Vec<String> = Vec::new();
    tags.push(new_string("frame-analysis"));
    tags.push(new_string("wwmi"));
    proof {
        assert(views(tags@) =~= seq!["frame-analysis"@, "wwmi"@]);
    }
    PreparedAssetInventory {
        schema_version: new_string("whashreonator.prepared-assets.v1"),
        context: PreparedAssetInventoryContext {
            extraction_tool: Some(new_string("3dmigoto-frame-analysis")),
            extraction_kind: Some(new_string("runtime_draw_call_hashes")),
            source_root: root,
            version_id: Some(new_string(version_id)),
            tags,
            meaningful_content_coverage: Some(true),
            meaningful_character_coverage: Some(true),
            note: Some(note),
        },
        assets,
    }
}


// ---------------------------------------------------------------------------
// The records come in path order
// ---------------------------------------------------------------------------

/// The path prefix of a category's records.
pub open spec fn category_prefix(c: InventoryCategory) -> Seq<char> {
    match c {
        InventoryCategory::ComputeShader => "runtime/cs/"@,
        InventoryCategory::IndexBuffer => "runtime/ib/"@,
        InventoryCategory::PixelShader => "runtime/ps/"@,
        InventoryCategory::PixelShaderTexture => "runtime/ps_tex/"@,
        InventoryCategory::VertexBuffer => "runtime/vb/"@,
        InventoryCategory::VertexShader => "runtime/vs/"@,
    }
}

pub open spec fn category_tail(c: InventoryCategory) -> Seq<char> {
    match c {
        InventoryCategory::ComputeShader => "cs/"@,
        InventoryCategory::IndexBuffer => "ib/"@,
        InventoryCategory::PixelShader => "ps/"@,
        InventoryCategory::PixelShaderTexture => "ps_tex/"@,
        InventoryCategory::VertexBuffer => "vb/"@,
        InventoryCategory::VertexShader => "vs/"@,
    }
}

/// Where a category stands in the inventory.
pub open spec fn category_rank(c: InventoryCategory) -> int {
    match c {
        InventoryCategory::ComputeShader => 0,
        InventoryCategory::IndexBuffer => 1,
        InventoryCategory::PixelShader => 2,
        InventoryCategory::PixelShaderTexture => 3,
        InventoryCategory::VertexBuffer => 4,
        InventoryCategory::VertexShader => 5,
    }
}

pub open spec fn model_paths(ms: Seq<RecordModel>) -> Seq<Seq<char>> {
    ms.map_values(|m: RecordModel| m.path)
}

proof fn lemma_prefix_split(c: InventoryCategory)
    ensures
        category_prefix(c) == "runtime/"@ + category_tail(c),
{
    reveal_strlit("runtime/");
    reveal_strlit("runtime/cs/");
    reveal_strlit("runtime/ib/");
    reveal_strlit("runtime/ps/");
    reveal_strlit("runtime/ps_tex/");
    reveal_strlit("runtime/vb/");
    reveal_strlit("runtime/vs/");
    reveal_strlit("cs/");
    reveal_strlit("ib/");
    reveal_strlit("ps/");
    reveal_strlit("ps_tex/");
    reveal_strlit("vb/");
    reveal_strlit("vs/");
    assert(category_prefix(c) =~= "runtime/"@ + category_tail(c));
}

proof fn lemma_lt_after_common(p: Seq<char>, a: Seq<char>, b: Seq<char>)
    ensures
        text_lt(p + a, p + b) == text_lt(a, b),
    decreases p.len(),
{
    if p.len() == 0 {
        assert(p + a =~= a);
        assert(p + b =~= b);
    } else {
        lemma_lt_after_common(p.drop_first(), a, b);
        assert((p + a).drop_first() =~= p.drop_first() + a);
        assert((p + b).drop_first() =~= p.drop_first() + b);
        assert((p + a)[0] == p[0]);
        assert((p + b)[0] == p[0]);
    }
}

proof fn lemma_model_path(ds: Seq<FrameAnalysisDrawCall>, c: InventoryCategory, h: Seq<char>)
    ensures
        category_model(ds, c, h).path == category_prefix(c) + h,
{
    reveal_strlit("runtime/");
    reveal_strlit("runtime/ps/");
    reveal_strlit("runtime/vs/");
    reveal_strlit("ps");
    reveal_strlit("vs");
    reveal_strlit("/");
    assert("runtime/"@ + "ps"@ + "/"@ + h =~= "runtime/ps/"@ + h);
    assert("runtime/"@ + "vs"@ + "/"@ + h =~= "runtime/vs/"@ + h);
}

/// Records of an earlier category sort before those of a later one.
proof fn lemma_category_order(
    c1: InventoryCategory,
    c2: InventoryCategory,
    h1: Seq<char>,
    h2: Seq<char>,
)
    requires
        category_rank(c1) < category_rank(c2),
    ensures
        text_lt(category_prefix(c1) + h1, category_prefix(c2) + h2),
{
    let t1 = category_tail(c1) + h1;
    let t2 = category_tail(c2) + h2;
    lemma_prefix_split(c1);
    lemma_prefix_split(c2);
    assert(category_prefix(c1) + h1 =~= "runtime/"@ + t1);
    assert(category_prefix(c2) + h2 =~= "runtime/"@ + t2);
    lemma_lt_after_common("runtime/"@, t1, t2);
    reveal_strlit("cs/");
    reveal_strlit("ib/");
    reveal_strlit("ps/");
    reveal_strlit("ps_tex/");
    reveal_strlit("vb/");
    reveal_strlit("vs/");
    if c1 == InventoryCategory::PixelShader && c2 == InventoryCategory::PixelShaderTexture {
        reveal_strlit("ps");
        reveal_strlit("/");
        reveal_strlit("_tex/");
        assert(t1 =~= "ps"@ + ("/"@ + h1));
        assert(t2 =~= "ps"@ + ("_tex/"@ + h2));
        lemma_lt_after_common("ps"@, "/"@ + h1, "_tex/"@ + h2);
        assert(("/"@ + h1)[0] == '/');
        assert(("_tex/"@ + h2)[0] == '_');
    } else if c1 == InventoryCategory::VertexBuffer && c2 == InventoryCategory::VertexShader {
        reveal_strlit("v");
        reveal_strlit("b/");
        reveal_strlit("s/");
        assert(t1 =~= "v"@ + ("b/"@ + h1));
        assert(t2 =~= "v"@ + ("s/"@ + h2));
        lemma_lt_after_common("v"@, "b/"@ + h1, "s/"@ + h2);
        assert(("b/"@ + h1)[0] == 'b');
        assert(("s/"@ + h2)[0] == 's');
    } else {
        assert(t1[0] == category_tail(c1)[0]);
        assert(t2[0] == category_tail(c2)[0]);
    }
}

proof fn lemma_single_hashes_finite(ds: Seq<FrameAnalysisDrawCall>, k: SingleKind)
    ensures
        single_hashes(ds, k).finite(),
    decreases ds.len(),
{
    if ds.len() > 0 {
        lemma_single_hashes_finite(ds.drop_last(), k);
    }
}

proof fn lemma_list_hashes_finite(ds: Seq<FrameAnalysisDrawCall>, k: ListKind)
    ensures
        list_hashes(ds, k).finite(),
    decreases ds.len(),
{
    if ds.len() > 0 {
        lemma_list_hashes_finite(ds.drop_last(), k);
        let v = views(list(ds.last(), k).map_values(|b: FrameAnalysisBinding| b.hash));
        vstd::seq_lib::seq_to_set_is_finite(v);
    }
}

proof fn lemma_category_paths(ds: Seq<FrameAnalysisDrawCall>, c: InventoryCategory)
    ensures
        sorted_strict(model_paths(category_models(ds, c))),
        model_paths(category_models(ds, c)).len() == ascending(category_hashes(ds, c)).len(),
        forall|i: int|
            0 <= i < model_paths(category_models(ds, c)).len() ==> #[trigger] model_paths(
                category_models(ds, c),
            )[i] == category_prefix(c) + ascending(category_hashes(ds, c))[i],
{
    let hs = ascending(category_hashes(ds, c));
    let ps = model_paths(category_models(ds, c));
    match c {
        InventoryCategory::ComputeShader => lemma_single_hashes_finite(ds, SingleKind::Cs),
        InventoryCategory::IndexBuffer => lemma_single_hashes_finite(ds, SingleKind::Ib),
        InventoryCategory::PixelShader => lemma_single_hashes_finite(ds, SingleKind::Ps),
        InventoryCategory::PixelShaderTexture => lemma_list_hashes_finite(ds, ListKind::Tex),
        InventoryCategory::VertexBuffer => lemma_list_hashes_finite(ds, ListKind::Vb),
        InventoryCategory::VertexShader => lemma_single_hashes_finite(ds, SingleKind::Vs),
    }
    lemma_ascending_exists(category_hashes(ds, c));
    assert forall|i: int| 0 <= i < ps.len() implies ps[i] == category_prefix(c) + hs[i] by {
        lemma_model_path(ds, c, hs[i]);
    }
    assert forall|i: int, j: int| 0 <= i < j < ps.len() implies text_lt(
        #[trigger] ps[i],
        #[trigger] ps[j],
    ) by {
        lemma_model_path(ds, c, hs[i]);
        lemma_model_path(ds, c, hs[j]);
        lemma_lt_after_common(category_prefix(c), hs[i], hs[j]);
    }
}

/// The path is that of a record of a category ranked below `r`.
pub open spec fn ranked_below(x: Seq<char>, r: int) -> bool {
    exists|c: InventoryCategory, h: Seq<char>|
        category_rank(c) < r && x == #[trigger] (category_prefix(c) + h)
}

proof fn lemma_join_category(
    acc: Seq<Seq<char>>,
    ds: Seq<FrameAnalysisDrawCall>,
    c: InventoryCategory,
)
    requires
        sorted_strict(acc),
        forall|i: int| 0 <= i < acc.len() ==> ranked_below(#[trigger] acc[i], category_rank(c)),
    ensures
        sorted_strict(acc + model_paths(category_models(ds, c))),
        forall|i: int|
            0 <= i < (acc + model_paths(category_models(ds, c))).len() ==> ranked_below(
                #[trigger] (acc + model_paths(category_models(ds, c)))[i],
                category_rank(c) + 1,
            ),
{
    let b = model_paths(category_models(ds, c));
    let r = acc + b;
    lemma_category_paths(ds, c);
    assert forall|i: int, j: int| 0 <= i < j < r.len() implies text_lt(
        #[trigger] r[i],
        #[trigger] r[j],
    ) by {
        if j < acc.len() {
            assert(r[i] == acc[i] && r[j] == acc[j]);
        } else if i >= acc.len() {
            assert(r[i] == b[i - acc.len()] && r[j] == b[j - acc.len()]);
        } else {
            assert(r[i] == acc[i]);
            assert(r[j] == b[j - acc.len()]);
            assert(ranked_below(acc[i], category_rank(c)));
            let (c1, h1) = choose|c1: InventoryCategory, h1: Seq<char>|
                category_rank(c1) < category_rank(c) && acc[i] == #[trigger] (category_prefix(c1)
                    + h1);
            let h2 = ascending(category_hashes(ds, c))[j - acc.len()];
            lemma_category_order(c1, c, h1, h2);
        }
    }
    assert forall|i: int| 0 <= i < r.len() implies ranked_below(
        #[trigger] r[i],
        category_rank(c) + 1,
    ) by {
        if i < acc.len() {
            assert(r[i] == acc[i]);
            assert(ranked_below(acc[i], category_rank(c)));
            let (c1, h1) = choose|c1: InventoryCategory, h1: Seq<char>|
                category_rank(c1) < category_rank(c) && acc[i] == #[trigger] (category_prefix(c1)
                    + h1);
            assert(category_rank(c1) < category_rank(c) + 1 && r[i] == category_prefix(c1) + h1);
        } else {
            assert(r[i] == b[i - acc.len()]);
            let h = ascending(category_hashes(ds, c))[i - acc.len()];
            assert(category_rank(c) < category_rank(c) + 1 && r[i] == category_prefix(c) + h);
        }
    }
}

/// The inventory lists its records in strictly ascending path order, the order a sort
/// by path gives them.
pub proof fn inventory_paths_strictly_ascend(ds: Seq<FrameAnalysisDrawCall>)
    ensures
        sorted_strict(model_paths(inventory_models(ds))),
{
    let p0 = model_paths(category_models(ds, InventoryCategory::ComputeShader));
    lemma_category_paths(ds, InventoryCategory::ComputeShader);
    assert forall|i: int| 0 <= i < p0.len() implies ranked_below(#[trigger] p0[i], 1) by {
        let h = ascending(category_hashes(ds, InventoryCategory::ComputeShader))[i];
        assert(category_rank(InventoryCategory::ComputeShader) < 1 && p0[i] == category_prefix(
            InventoryCategory::ComputeShader,
        ) + h);
    }
    lemma_join_category(p0, ds, InventoryCategory::IndexBuffer);
    let p1 = p0 + model_paths(category_models(ds, InventoryCategory::IndexBuffer));
    lemma_join_category(p1, ds, InventoryCategory::PixelShader);
    let p2 = p1 + model_paths(category_models(ds, InventoryCategory::PixelShader));
    lemma_join_category(p2, ds, InventoryCategory::PixelShaderTexture);
    let p3 = p2 + model_paths(category_models(ds, InventoryCategory::PixelShaderTexture));
    lemma_join_category(p3, ds, InventoryCategory::VertexBuffer);
    let p4 = p3 + model_paths(category_models(ds, InventoryCategory::VertexBuffer));
    lemma_join_category(p4, ds, InventoryCategory::VertexShader);
    let p5 = p4 + model_paths(category_models(ds, InventoryCategory::VertexShader));
    assert(model_paths(inventory_models(ds)) =~= p5);
}

} // verus!

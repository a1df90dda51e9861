//! Assets that were prepared for the GPU, found by the number of the asset
//! they were made of.

use vstd::prelude::*;
use std::collections::HashMap;

verus! {

/// The number that the host engine knows an asset by.
#[derive(Debug, Clone, Copy, PartialEq, Eq, Structural)]
pub struct AssetId(pub u128);

/// The prepared assets of one kind.
pub struct RenderAssets<P> {
    assets: HashMap<u128, P>,
}

impl<P> View for RenderAssets<P> {
    type V = Map<u128, P>;

    closed spec fn view(&self) -> Map<u128, P> {
        self.assets@
    }
}

impl<P> RenderAssets<P> {
    /// No asset at all.
    pub fn new() -> (assets: RenderAssets<P>)
        ensures
            assets@ == Map::<u128, P>::empty(),
    {
        RenderAssets { assets: HashMap::new() }
    }

    /// The asset prepared for `id`, if it is ready.
    pub fn get(&self, id: AssetId) -> (asset: Option<&P>)
        ensures
            asset == (if self@.contains_key(id.0) {
                Some(&self@[id.0])
            } else {
                None
            }),
    {
        broadcast use vstd::std_specs::hash::group_hash_axioms;

        self.assets.get(&id.0)
    }

    /// Whether the asset for `id` is ready.
    pub fn contains(&self, id: AssetId) -> (ready: bool)
        ensures
            ready == self@.contains_key(id.0),
    {
        broadcast use vstd::std_specs::hash::group_hash_axioms;

        self.assets.contains_key(&id.0)
    }

    /// Keeps `asset` as what was prepared for `id`, in place of what was
    /// kept for it before.
    pub fn insert(&mut self, id: AssetId, asset: P)
        ensures
            final(self)@ == old(self)@.insert(id.0, asset),
    {
        broadcast use vstd::std_specs::hash::group_hash_axioms;

        self.assets.insert(id.0, asset);
    }

    /// Takes out what was prepared for `id`.
    pub fn remove(&mut self, id: AssetId) -> (asset: Option<P>)
        ensures
            final(self)@ == old(self)@.remove(id.0),
            asset == (if old(self)@.contains_key(id.0) {
                Some(old(self)@[id.0])
            } else {
                None
            }),
    {
        broadcast use vstd::std_specs::hash::group_hash_axioms;

        self.assets.remove(&id.0)
    }

    /// How many assets are ready.
    pub fn len(&self) -> (n: usize)
        ensures
            n == self@.len(),
    {
        broadcast use vstd::std_specs::hash::group_hash_axioms;

        self.assets.len()
    }
}

impl<P> Default for RenderAssets<P> {
    fn default() -> (assets: RenderAssets<P>)
        ensures
            assets@ == Map::<u128, P>::empty(),
    {
        RenderAssets::new()
    }
}

/// What happened to an asset of the host engine.
#[derive(Debug, Clone, Copy, PartialEq, Eq, Structural)]
pub enum AssetEvent {
    Added { id: AssetId },
    Modified { id: AssetId },
    Removed { id: AssetId },
    LoadedWithDependencies { id: AssetId },
}

/// The assets that have to be prepared anew after `events`: those that were
/// added or modified and not removed since.
pub open spec fn changed_after(events: Seq<AssetEvent>) -> Set<AssetId>
    decreases events.len(),
{
    if events.len() == 0 {
        Set::empty()
    } else {
        let before = changed_after(events.drop_last());
        match events.last() {
            AssetEvent::Added { id } => before.insert(id),
            AssetEvent::Modified { id } => before.insert(id),
            AssetEvent::Removed { id } => before.remove(id),
            AssetEvent::LoadedWithDependencies { id } => before,
        }
    }
}

/// The assets that were removed by `events`, in the order of their removal.
pub open spec fn removed_after(events: Seq<AssetEvent>) -> Seq<AssetId>
    decreases events.len(),
{
    if events.len() == 0 {
        Seq::empty()
    } else {
        let before = removed_after(events.drop_last());
        match events.last() {
            AssetEvent::Removed { id } => before.push(id),
            _ => before,
        }
    }
}

fn position_of(ids: &Vec<AssetId>, id: AssetId) -> (at: Option<usize>)
    ensures
        match at {
            Some(i) => i < ids@.len() && ids@[i as int] == id,
            None => !ids@.contains(id),
        },
{
    let mut i: usize = 0;
    while i < ids.len()
        invariant
            i <= ids.len(),
            forall|j: int| 0 <= j < i ==> ids@[j] != id,
        decreases ids.len() - i,
    {
        if ids[i] == id {
            return Some(i);
        }
        i += 1;
    }
    None
}

/// Reads the events of a frame: which assets have to be prepared anew, each
/// named once, and which were removed.
pub fn extract_render_asset(events: &Vec<AssetEvent>) -> (r: (Vec<AssetId>, Vec<AssetId>))
    ensures
        r.0@.no_duplicates(),
        r.0@.to_set() == changed_after(events@),
        r.1@ == removed_after(events@),
{
    let mut changed: Vec<AssetId> = Vec::new();
    let mut removed: Vec<AssetId> = Vec::new();
    let mut i: usize = 0;
    assert(events@.take(0) =~= Seq::empty());
    assert(changed@.to_set() =~= Set::empty());
    while i < events.len()
        invariant
            i <= events.len(),
            changed@.no_duplicates(),
            changed@.to_set() == changed_after(events@.take(i as int)),
            removed@ == removed_after(events@.take(i as int)),
        decreases events.len() - i,
    {
        let ghost upto = events@.take(i + 1);
        assert(upto.drop_last() =~= events@.take(i as int));
        assert(upto.last() == events@[i as int]);
        let ghost before = changed@;
        match events[i] {
            AssetEvent::Added { id } | AssetEvent::Modified { id } => {
                if position_of(&changed, id).is_none() {
                    changed.push(id);
                    assert(changed@.to_set() =~= before.to_set().insert(id)) by {
                        assert forall|x: AssetId| changed@.contains(x) <==> (before.contains(x) || x
                            == id) by {
                            if changed@.contains(x) {
                                let k = choose|k: int| 0 <= k < changed@.len() && changed@[k] == x;
                                if k < before.len() {
                                    assert(before[k] == x);
                                }
                            }
                            if before.contains(x) {
                                let k = choose|k: int| 0 <= k < before.len() && before[k] == x;
                                assert(changed@[k] == x);
                            }
                            if x == id {
                                assert(changed@[before.len() as int] == x);
                            }
                        }
                    }
                } else {
                    assert(before.to_set() =~= before.to_set().insert(id));
                }
            },
            AssetEvent::Removed { id } => {
                match position_of(&changed, id) {
                    Some(at) => {
                        let gone = changed.remove(at);
                        assert(changed@.to_set() =~= before.to_set().remove(id)) by {
                            assert forall|x: AssetId| changed@.contains(x) <==> (before.contains(x)
                                && x != id) by {
                                if changed@.contains(x) {
                                    let k = choose|k: int|
                                        0 <= k < changed@.len() && changed@[k] == x;
                                    if k < at {
                                        assert(before[k] == x);
                                    } else {
                                        assert(before[k + 1] == x);
                                    }
                                }
                                if before.contains(x) && x != id {
                                    let k = choose|k: int| 0 <= k < before.len() && before[k] == x;
                                    if k < at {
                                        assert(changed@[k] == x);
                                    } else {
                                        assert(changed@[k - 1] == x);
                                    }
                                }
                            }
                        }
                    },
                    None => {
                        assert(before.to_set() =~= before.to_set().remove(id));
                    },
                }
                removed.push(id);
            },
            AssetEvent::LoadedWithDependencies { id } => {},
        }
        i += 1;
    }
    assert(events@.take(events@.len() as int) =~= events@);
    (changed, removed)
}

/// Why an asset could not be prepared.
#[derive(Debug)]
pub enum PrepareAssetError<E> {
    /// Not now: the asset is handed back, to be tried again in the next
    /// frame.
    RetryNextUpdate(E),
    /// Never: the asset cannot be prepared, whenever it is tried.
    Rejected,
}

/// A kind of asset that is prepared for the GPU.
pub trait PrepareAsset {
    /// The asset as it was taken from the host engine.
    type ExtractedAsset;

    /// The asset as the GPU needs it.
    type PreparedAsset;

    /// What preparing an asset of this kind draws on.
    type Param;

    /// What preparing needs of what it draws on. Unless a kind says more,
    /// nothing.
    open spec fn ready(param: Self::Param) -> bool {
        true
    }

    /// What [`PrepareAsset::prepare_asset_3ds`] does, or may do. Unless a
    /// kind says more, nothing is known of it.
    open spec fn prepared(
        extracted: Self::ExtractedAsset,
        before: Self::Param,
        after: Self::Param,
        r: Result<Self::PreparedAsset, PrepareAssetError<Self::ExtractedAsset>>,
    ) -> bool {
        true
    }

    /// Prepares `extracted` for the GPU, or hands it back to be tried again.
    fn prepare_asset_3ds(extracted: Self::ExtractedAsset, param: &mut Self::Param) -> (r: Result<
        Self::PreparedAsset,
        PrepareAssetError<Self::ExtractedAsset>,
    >)
        requires
            Self::ready(*old(param)),
        ensures
            Self::ready(*final(param)),
            Self::prepared(extracted, *old(param), *final(param), r),
    ;
}

/// The assets of one kind that the frame brought: those to prepare, and
/// those to forget.
pub struct ExtractedAssets<R: PrepareAsset> {
    pub extracted: Vec<(AssetId, R::ExtractedAsset)>,
    pub removed: Vec<AssetId>,
}

impl<R: PrepareAsset> Default for ExtractedAssets<R> {
    fn default() -> (assets: Self)
        ensures
            assets.extracted@.len() == 0,
            assets.removed@.len() == 0,
    {
        ExtractedAssets { extracted: Vec::new(), removed: Vec::new() }
    }
}

/// The assets of one kind that could not be prepared yet.
pub struct PrepNextFrameAssets<R: PrepareAsset> {
    pub assets: Vec<(AssetId, R::ExtractedAsset)>,
}

impl<R: PrepareAsset> Default for PrepNextFrameAssets<R> {
    fn default() -> (assets: Self)
        ensures
            assets.assets@.len() == 0,
    {
        PrepNextFrameAssets { assets: Vec::new() }
    }
}

/// One attempt to prepare an asset.
pub ghost struct Attempt<R: PrepareAsset> {
    pub id: AssetId,
    pub extracted: R::ExtractedAsset,
    pub before: R::Param,
    pub after: R::Param,
    pub result: Result<R::PreparedAsset, PrepareAssetError<R::ExtractedAsset>>,
}

/// Whether `attempts` are attempts to prepare the assets `work`, one after
/// the other, which found what they draw on as `start` and left it as `end`:
/// each attempt finds it as the attempt before left it.
pub open spec fn attempts_of<R: PrepareAsset>(
    attempts: Seq<Attempt<R>>,
    work: Seq<(AssetId, R::ExtractedAsset)>,
    start: R::Param,
    end: R::Param,
) -> bool
    decreases attempts.len(),
{
    if attempts.len() == 0 {
        work.len() == 0 && end == start
    } else {
        let attempt = attempts.last();
        &&& work.len() == attempts.len()
        &&& attempt.id == work.last().0
        &&& attempt.extracted == work.last().1
        &&& R::prepared(attempt.extracted, attempt.before, attempt.after, attempt.result)
        &&& attempt.after == end
        &&& attempts_of(attempts.drop_last(), work.drop_last(), start, attempt.before)
    }
}

/// The prepared assets after `attempts`: what an attempt prepared is kept
/// for its asset, in place of what was kept for it before.
pub open spec fn kept<R: PrepareAsset>(
    assets: Map<u128, R::PreparedAsset>,
    attempts: Seq<Attempt<R>>,
) -> Map<u128, R::PreparedAsset>
    decreases attempts.len(),
{
    if attempts.len() == 0 {
        assets
    } else {
        let before = kept(assets, attempts.drop_last());
        match attempts.last().result {
            Ok(prepared) => before.insert(attempts.last().id.0, prepared),
            Err(_) => before,
        }
    }
}

/// The assets that `attempts` handed back, in the order of the attempts.
pub open spec fn put_off<R: PrepareAsset>(attempts: Seq<Attempt<R>>) -> Seq<
    (AssetId, R::ExtractedAsset),
>
    decreases attempts.len(),
{
    if attempts.len() == 0 {
        Seq::empty()
    } else {
        let before = put_off(attempts.drop_last());
        match attempts.last().result {
            Err(PrepareAssetError::RetryNextUpdate(extracted)) => before.push(
                (attempts.last().id, extracted),
            ),
            _ => before,
        }
    }
}

/// The prepared assets without those of `removed`.
pub open spec fn without<P>(assets: Map<u128, P>, removed: Seq<AssetId>) -> Map<u128, P>
    decreases removed.len(),
{
    if removed.len() == 0 {
        assets
    } else {
        without(assets, removed.drop_last()).remove(removed.last().0)
    }
}

/// Whether `first` and `second` show how the assets of a frame were
/// prepared: `first` are the attempts on the assets that were put off in the
/// frame before, `second` those on the assets that the frame brought. In
/// between, the assets that the frame removed were forgotten. What an
/// attempt handed back is put off to the next frame.
pub open spec fn assets_prepared<R: PrepareAsset>(
    extracted: ExtractedAssets<R>,
    assets: Map<u128, R::PreparedAsset>,
    waiting: Seq<(AssetId, R::ExtractedAsset)>,
    start: R::Param,
    assets_after: Map<u128, R::PreparedAsset>,
    waiting_after: Seq<(AssetId, R::ExtractedAsset)>,
    end: R::Param,
    first: Seq<Attempt<R>>,
    second: Seq<Attempt<R>>,
) -> bool {
    let between = if first.len() == 0 {
        start
    } else {
        first.last().after
    };
    &&& attempts_of(first, waiting, start, between)
    &&& attempts_of(second, extracted.extracted@, between, end)
    &&& assets_after == kept(without(kept(assets, first), extracted.removed@), second)
    &&& waiting_after == put_off(first) + put_off(second)
}

proof fn lemma_attempt_added<R: PrepareAsset>(
    earlier: Seq<Attempt<R>>,
    work: Seq<(AssetId, R::ExtractedAsset)>,
    i: int,
    start: R::Param,
    attempt: Attempt<R>,
)
    requires
        0 <= i < work.len(),
        attempts_of(earlier, work.take(i), start, attempt.before),
        attempt.id == work[i].0,
        attempt.extracted == work[i].1,
        R::prepared(attempt.extracted, attempt.before, attempt.after, attempt.result),
    ensures
        attempts_of(earlier.push(attempt), work.take(i + 1), start, attempt.after),
        earlier.push(attempt).drop_last() == earlier,
        earlier.push(attempt).last() == attempt,
{
    let attempts = earlier.push(attempt);
    assert(attempts.drop_last() =~= earlier);
    assert(work.take(i + 1).drop_last() =~= work.take(i));
    assert(work.take(i + 1).last() == work[i]);
    lemma_attempts_len::<R>(earlier, work.take(i), start, attempt.before);
}

proof fn lemma_attempts_len<R: PrepareAsset>(
    attempts: Seq<Attempt<R>>,
    work: Seq<(AssetId, R::ExtractedAsset)>,
    start: R::Param,
    end: R::Param,
)
    requires
        attempts_of(attempts, work, start, end),
    ensures
        attempts.len() == work.len(),
        end == (if attempts.len() == 0 {
            start
        } else {
            attempts.last().after
        }),
{
}

/// Attempts to prepare every asset of `work`.
fn attempt_all<R: PrepareAsset>(
    work: Vec<(AssetId, R::ExtractedAsset)>,
    render_assets: &mut RenderAssets<R::PreparedAsset>,
    waiting: &mut Vec<(AssetId, R::ExtractedAsset)>,
    param: &mut R::Param,
) -> (attempts: Ghost<Seq<Attempt<R>>>)
    requires
        R::ready(*old(param)),
    ensures
        R::ready(*final(param)),
        attempts_of(attempts@, work@, *old(param), *final(param)),
        final(render_assets)@ == kept(old(render_assets)@, attempts@),
        final(waiting)@ == old(waiting)@ + put_off(attempts@),
{
    let ghost mut attempts: Seq<Attempt<R>> = Seq::empty();
    assert(old(waiting)@ + put_off(attempts) =~= old(waiting)@);
    for item in iter: work
        invariant
            iter.seq() == work@,
            R::ready(*param),
            attempts_of(attempts, work@.take(iter.index() as int), *old(param), *param),
            render_assets@ == kept(old(render_assets)@, attempts),
            waiting@ == old(waiting)@ + put_off(attempts),
    {
        let ghost i = iter.index() as int;
        let ghost before = *param;
        let ghost earlier = attempts;
        let (id, extracted) = item;
        let r = R::prepare_asset_3ds(extracted, param);
        proof {
            let attempt = Attempt::<R> { id, extracted, before, after: *param, result: r };
            lemma_attempt_added::<R>(earlier, work@, i, *old(param), attempt);
            attempts = earlier.push(attempt);
        }
        match r {
            Ok(prepared) => {
                render_assets.insert(id, prepared);
            },
            Err(PrepareAssetError::RetryNextUpdate(back)) => {
                waiting.push((id, back));
                assert(waiting@ =~= old(waiting)@ + put_off(attempts));
            },
            Err(PrepareAssetError::Rejected) => {},
        }
    }
    assert(work@.take(work@.len() as int) =~= work@);
    Ghost(attempts)
}

/// Prepares the assets of a frame.
///
/// First those that were put off in the frame before are tried again. Then
/// the assets that the frame removed are forgotten. Then those that the
/// frame brought are tried. What cannot be prepared now is neither kept nor
/// lost: it is put off to the next frame. What can never be prepared is
/// dropped.
pub fn prepare_assets<R: PrepareAsset>(
    extracted_assets: &mut ExtractedAssets<R>,
    render_assets: &mut RenderAssets<R::PreparedAsset>,
    prepare_next_frame: &mut PrepNextFrameAssets<R>,
    param: &mut R::Param,
)
    requires
        R::ready(*old(param)),
    ensures
        R::ready(*final(param)),
        final(extracted_assets).extracted@.len() == 0,
        final(extracted_assets).removed@.len() == 0,
        exists|first: Seq<Attempt<R>>, second: Seq<Attempt<R>>|
            assets_prepared(
                *old(extracted_assets),
                old(render_assets)@,
                old(prepare_next_frame).assets@,
                *old(param),
                final(render_assets)@,
                final(prepare_next_frame).assets@,
                *final(param),
                first,
                second,
            ),
{
    let mut queued: Vec<(AssetId, R::ExtractedAsset)> = Vec::new();
    core::mem::swap(&mut prepare_next_frame.assets, &mut queued);
    let first = attempt_all::<R>(queued, render_assets, &mut prepare_next_frame.assets, param);
    let ghost between = *param;
    proof {
        lemma_attempts_len::<R>(first@, old(prepare_next_frame).assets@, *old(param), between);
    }

    let mut removed: Vec<AssetId> = Vec::new();
    core::mem::swap(&mut extracted_assets.removed, &mut removed);
    let ghost after_first = render_assets@;
    let mut i: usize = 0;
    assert(removed@.take(0) =~= Seq::empty());
    while i < removed.len()
        invariant
            i <= removed.len(),
            render_assets@ == without(after_first, removed@.take(i as int)),
        decreases removed.len() - i,
    {
        let ghost upto = removed@.take(i + 1);
        assert(upto.drop_last() =~= removed@.take(i as int));
        assert(upto.last() == removed@[i as int]);
        let gone = render_assets.remove(removed[i]);
        i += 1;
    }
    assert(removed@.take(removed@.len() as int) =~= removed@);

    let mut brought: Vec<(AssetId, R::ExtractedAsset)> = Vec::new();
    core::mem::swap(&mut extracted_assets.extracted, &mut brought);
    let second = attempt_all::<R>(brought, render_assets, &mut prepare_next_frame.assets, param);
    proof {
        assert(prepare_next_frame.assets@ =~= put_off(first@) + put_off(second@));
        assert(assets_prepared(
            *old(extracted_assets),
            old(render_assets)@,
            old(prepare_next_frame).assets@,
            *old(param),
            render_assets@,
            prepare_next_frame.assets@,
            *param,
            first@,
            second@,
        ));
    }
}

/// An asset that cannot be prepared now is neither kept nor lost: if every
/// attempt hands its asset back, the prepared assets stay as they were and
/// every asset is put off, in the order of the attempts.
pub proof fn lemma_unready_assets_are_put_off<R: PrepareAsset>(
    assets: Map<u128, R::PreparedAsset>,
    attempts: Seq<Attempt<R>>,
)
    requires
        forall|i: int|
            0 <= i < attempts.len() ==> (#[trigger] attempts[i]).result matches Err(
                PrepareAssetError::RetryNextUpdate(_),
            ),
    ensures
        kept(assets, attempts) == assets,
        put_off(attempts).len() == attempts.len(),
        forall|i: int|
            0 <= i < attempts.len() ==> (#[trigger] put_off(attempts)[i]).0 == attempts[i].id,
    decreases attempts.len(),
{
    if attempts.len() > 0 {
        assert(attempts.last().result matches Err(PrepareAssetError::RetryNextUpdate(_)));
        assert forall|i: int| 0 <= i < attempts.drop_last().len() implies (
        #[trigger] attempts.drop_last()[i]).result matches Err(
            PrepareAssetError::RetryNextUpdate(_),
        ) by {
            assert(attempts.drop_last()[i] == attempts[i]);
        }
        lemma_unready_assets_are_put_off::<R>(assets, attempts.drop_last());
        assert forall|i: int| 0 <= i < attempts.len() implies (#[trigger] put_off(attempts)[i]).0
            == attempts[i].id by {
            if i < attempts.len() - 1 {
                assert(put_off(attempts)[i] == put_off(attempts.drop_last())[i]);
                assert(attempts.drop_last()[i] == attempts[i]);
            }
        }
    }
}

} // verus!

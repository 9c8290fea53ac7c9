use vstd::prelude::*;
use vstd::string::StringExecFns;
use crate::scene::LightmapInfo;

verus! {

/// What the asset backend reports of a requested load.
#[derive(Debug, Clone, Copy, PartialEq, Eq, Structural)]
pub enum LoadState {
    NotFound,
    Loading,
    Loaded,
    Failed,
}

/// A surface that holds a lightmap binding and a material reference.
#[derive(Debug)]
pub struct BoundSurface {
    /// The surface entity.
    pub entity: usize,
    /// The material that the surface renders with.
    pub material: usize,
    pub info: LightmapInfo,
}

/// One load to issue: the texture at `path` is requested and attached to
/// `entity` as its lightmap, and `material` gets `lightmap_exposure` and
/// `reflectance`.
#[derive(Debug)]
pub struct LightmapLoad {
    pub entity: usize,
    pub material: usize,
    pub path: String,
    pub lightmap_exposure: u32,
    pub reflectance: u32,
}

impl View for LightmapLoad {
    type V = (usize, usize, Seq<char>, u32, u32);

    open spec fn view(&self) -> (usize, usize, Seq<char>, u32, u32) {
        (self.entity, self.material, self.path@, self.lightmap_exposure, self.reflectance)
    }
}

/// The asset path of a lightmap: `lightmaps/<name>.ktx2`, the name taken
/// verbatim.
pub open spec fn lightmap_path(name: Seq<char>) -> Seq<char> {
    "lightmaps/"@ + name + ".ktx2"@
}

/// The load issued for a bound surface.
pub open spec fn load_for(s: BoundSurface) -> (usize, usize, Seq<char>, u32, u32) {
    (s.entity, s.material, lightmap_path(s.info.lightmap_name@), s.info.exposure, 0)
}

/// Whether every load reports loaded.
pub open spec fn all_loaded(states: Seq<LoadState>) -> bool {
    forall|i: int| 0 <= i < states.len() ==> #[trigger] states[i] is Loaded
}

/// Pending paths as character sequences.
pub open spec fn path_views(p: Seq<String>) -> Seq<Seq<char>> {
    p.map_values(|s: String| s@)
}

/// Issued loads as values.
pub open spec fn load_views(l: Seq<LightmapLoad>) -> Seq<(usize, usize, Seq<char>, u32, u32)> {
    l.map_values(|x: LightmapLoad| x@)
}

/// One tick of the application pass on pending paths and run flag: the
/// pending paths, the run flag and the loads issued afterwards.
///
/// Done (run flag set): nothing changes. Issuing (nothing pending): one load per
/// bound surface, whose path becomes pending. Waiting: when every pending
/// load reports loaded, the pending set is cleared and the run flag set;
/// otherwise nothing changes.
pub open spec fn apply_outcome(
    surfaces: Seq<BoundSurface>,
    states: Seq<LoadState>,
    pending: Seq<Seq<char>>,
    single_run: bool,
) -> (Seq<Seq<char>>, bool, Seq<(usize, usize, Seq<char>, u32, u32)>) {
    if single_run {
        (pending, true, seq![])
    } else if pending.len() == 0 {
        (
            surfaces.map_values(|s: BoundSurface| lightmap_path(s.info.lightmap_name@)),
            false,
            surfaces.map_values(|s: BoundSurface| load_for(s)),
        )
    } else if all_loaded(states) {
        (seq![], true, seq![])
    } else {
        (pending, false, seq![])
    }
}

/// Builds `lightmaps/<name>.ktx2`.
pub fn lightmap_path_of(name: &String) -> (r: String)
    ensures
        r@ == lightmap_path(name@),
{
    let mut p = "lightmaps/".to_owned();
    p.append(name.as_str());
    p.append(".ktx2");
    p
}

/// The application pass, one tick. `pending` holds the paths of the loads
/// in flight, in issue order, and `load_states` what the backend reports for
/// each of them.
///
/// With the run flag set, nothing happens. With nothing pending, one load is
/// issued for each bound surface, in order; its material gets the binding's
/// exposure and zero reflectance, and its path becomes pending. With loads
/// pending, the set is cleared and the run flag set exactly when every one of
/// them reports loaded; a failed or unknown load counts as not loaded.
pub fn apply_lightmaps(
    surfaces: &Vec<BoundSurface>,
    load_states: &Vec<LoadState>,
    pending: &mut Vec<String>,
    single_run: &mut bool,
) -> (loads: Vec<LightmapLoad>)
    requires
        load_states@.len() == old(pending)@.len(),
    ensures
        (path_views(final(pending)@), *final(single_run), load_views(loads@)) == apply_outcome(
            surfaces@,
            load_states@,
            path_views(old(pending)@),
            *old(single_run),
        ),
{
    let mut loads: Vec<LightmapLoad> = Vec::new();
    if *single_run {
        assert(load_views(loads@) =~= seq![]);
        return loads;
    }
    if pending.len() == 0 {
        let n = surfaces.len();
        let mut i: usize = 0;
        while i < n
            invariant
                n == surfaces@.len(),
                i <= n,
                pending@.len() == i,
                loads@.len() == i,
                forall|k: int|
                    0 <= k < i ==> (#[trigger] pending@[k])@ == lightmap_path(
                        surfaces@[k].info.lightmap_name@,
                    ),
                forall|k: int| 0 <= k < i ==> (#[trigger] loads@[k])@ == load_for(surfaces@[k]),
            decreases n - i,
        {
            let s = &surfaces[i];
            let path = lightmap_path_of(&s.info.lightmap_name);
            pending.push(path.clone());
            loads.push(
                LightmapLoad {
                    entity: s.entity,
                    material: s.material,
                    path,
                    lightmap_exposure: s.info.exposure,
                    reflectance: 0,
                },
            );
            i += 1;
        }
        assert(path_views(pending@) =~= surfaces@.map_values(
            |s: BoundSurface| lightmap_path(s.info.lightmap_name@),
        ));
        assert(load_views(loads@) =~= surfaces@.map_values(|s: BoundSurface| load_for(s)));
        return loads;
    }
    let mut all = true;
    let mut j: usize = 0;
    while j < load_states.len()
        invariant
            j <= load_states@.len(),
            all == (forall|k: int| 0 <= k < j ==> #[trigger] load_states@[k] is Loaded),
        decreases load_states@.len() - j,
    {
        match load_states[j] {
            LoadState::Loaded => {},
            _ => {
                all = false;
            },
        }
        j += 1;
    }
    if all {
        *pending = Vec::new();
        *single_run = true;
        assert(path_views(pending@) =~= seq![]);
    }
    assert(load_views(loads@) =~= seq![]);
    loads
}

/// Once the run flag is set nothing is pending: a state in which the flag
/// set implies an empty pending set keeps that property after a tick.
pub proof fn lemma_done_has_nothing_pending(
    surfaces: Seq<BoundSurface>,
    states: Seq<LoadState>,
    pending: Seq<Seq<char>>,
    single_run: bool,
)
    requires
        single_run ==> pending.len() == 0,
    ensures
        ({
            let o = apply_outcome(surfaces, states, pending, single_run);
            o.1 ==> o.0.len() == 0
        }),
{
}

/// Whether the pass has issued its loads: the run flag is set or loads are
/// pending.
pub open spec fn has_issued(pending: Seq<Seq<char>>, single_run: bool) -> bool {
    single_run || pending.len() > 0
}

/// The loads issued at each of a run of ticks, each tick given by the bound
/// surfaces and the load states it sees.
pub open spec fn issued_per_tick(
    pending: Seq<Seq<char>>,
    single_run: bool,
    ticks: Seq<(Seq<BoundSurface>, Seq<LoadState>)>,
) -> Seq<Seq<(usize, usize, Seq<char>, u32, u32)>>
    decreases ticks.len(),
{
    if ticks.len() == 0 {
        seq![]
    } else {
        let o = apply_outcome(ticks[0].0, ticks[0].1, pending, single_run);
        seq![o.2] + issued_per_tick(o.0, o.1, ticks.subrange(1, ticks.len() as int))
    }
}

proof fn lemma_quiet_after_issue(
    pending: Seq<Seq<char>>,
    single_run: bool,
    ticks: Seq<(Seq<BoundSurface>, Seq<LoadState>)>,
)
    requires
        has_issued(pending, single_run),
    ensures
        issued_per_tick(pending, single_run, ticks).len() == ticks.len(),
        forall|j: int|
            0 <= j < ticks.len() ==> (#[trigger] issued_per_tick(pending, single_run, ticks)[j]).len()
                == 0,
    decreases ticks.len(),
{
    if ticks.len() > 0 {
        let o = apply_outcome(ticks[0].0, ticks[0].1, pending, single_run);
        let rest = ticks.subrange(1, ticks.len() as int);
        lemma_quiet_after_issue(o.0, o.1, rest);
        assert forall|j: int| 0 <= j < ticks.len() implies (#[trigger] issued_per_tick(
            pending,
            single_run,
            ticks,
        )[j]).len() == 0 by {
            if j > 0 {
                assert(issued_per_tick(pending, single_run, ticks)[j] == issued_per_tick(
                    o.0,
                    o.1,
                    rest,
                )[j - 1]);
            }
        }
    }
}

/// Loads are issued in at most one tick, however many ticks run: once a tick
/// has issued a load, no later tick issues any. The tick that issues gives
/// exactly one load per bound surface it sees.
pub proof fn lemma_single_issue(
    pending: Seq<Seq<char>>,
    single_run: bool,
    ticks: Seq<(Seq<BoundSurface>, Seq<LoadState>)>,
)
    ensures
        issued_per_tick(pending, single_run, ticks).len() == ticks.len(),
        forall|i: int, j: int|
            0 <= i < j < ticks.len() && (#[trigger] issued_per_tick(pending, single_run, ticks)[i]).len()
                > 0 ==> (#[trigger] issued_per_tick(pending, single_run, ticks)[j]).len() == 0,
        forall|i: int|
            0 <= i < ticks.len() && (#[trigger] issued_per_tick(pending, single_run, ticks)[i]).len()
                > 0 ==> issued_per_tick(pending, single_run, ticks)[i] == ticks[i].0.map_values(
                |s: BoundSurface| load_for(s),
            ),
    decreases ticks.len(),
{
    if ticks.len() > 0 {
        let o = apply_outcome(ticks[0].0, ticks[0].1, pending, single_run);
        let rest = ticks.subrange(1, ticks.len() as int);
        let all = issued_per_tick(pending, single_run, ticks);
        lemma_single_issue(o.0, o.1, rest);
        if o.2.len() > 0 {
            lemma_quiet_after_issue(o.0, o.1, rest);
        }
        assert forall|j: int| 0 < j < ticks.len() implies all[j] == issued_per_tick(
            o.0,
            o.1,
            rest,
        )[j - 1] && ticks[j] == rest[j - 1] by {}
        assert forall|i: int, j: int|
            0 <= i < j < ticks.len() && (#[trigger] all[i]).len() > 0 implies (#[trigger] all[j]).len()
            == 0 by {
            if i > 0 {
                assert(issued_per_tick(o.0, o.1, rest)[i - 1].len() > 0);
            }
        }
    }
}

/// The pending set is cleared exactly when every pending load reports
/// loaded at once, and is never partly drained: a waiting tick leaves it
/// whole or empty.
pub proof fn lemma_completion_gating(
    surfaces: Seq<BoundSurface>,
    states: Seq<LoadState>,
    pending: Seq<Seq<char>>,
)
    requires
        pending.len() > 0,
        states.len() == pending.len(),
    ensures
        ({
            let o = apply_outcome(surfaces, states, pending, false);
            &&& o.0.len() == 0 <==> all_loaded(states)
            &&& o.0 == pending || o.0.len() == 0
            &&& o.1 <==> o.0.len() == 0
        }),
{
}

} // verus!

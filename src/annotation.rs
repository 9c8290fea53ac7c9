use vstd::prelude::*;
use crate::scene::{Extras, LightmapInfo, SceneNode, DEFAULT_EXPOSURE};

verus! {

/// The lightmap identifier that a node hands to its children: present only
/// for a named node whose metadata decoded and holds the lightmap field.
pub open spec fn lightmap_ref(node: SceneNode) -> Option<Seq<char>> {
    if node.name is Some {
        match node.extras {
            Extras::Parsed(v) => match v.tlm_lightmap {
                Some(s) => Some(s@),
                None => None,
            },
            _ => None,
        }
    } else {
        None
    }
}

/// Whether the pass reports the node's metadata as undecodable. Unnamed nodes
/// are not scanned, so they are never reported.
pub open spec fn reports_malformed(node: SceneNode) -> bool {
    node.name is Some && node.extras is Malformed
}

/// The lightmap that node `e` receives from its parent: only a named node
/// whose immediate parent holds a lightmap reference receives one.
pub open spec fn bound_lightmap(nodes: Seq<SceneNode>, e: int) -> Option<Seq<char>> {
    match nodes[e].parent {
        Some(p) => if nodes[e].name is Some && p < nodes.len() {
            lightmap_ref(nodes[p as int])
        } else {
            None
        },
        None => None,
    }
}

/// A binding as a value: the lightmap name and the exposure.
pub open spec fn info_view(o: Option<LightmapInfo>) -> Option<(Seq<char>, u32)> {
    match o {
        Some(i) => Some(i@),
        None => None,
    }
}

/// The bindings of all nodes, as values.
pub open spec fn binding_table(t: Seq<Option<LightmapInfo>>) -> Seq<Option<(Seq<char>, u32)>> {
    t.map_values(|o: Option<LightmapInfo>| info_view(o))
}

/// The bindings after one scan of the scene: every node that receives a
/// lightmap gets it with the default exposure; every other node keeps what
/// it had.
pub open spec fn annotated(nodes: Seq<SceneNode>, table: Seq<Option<(Seq<char>, u32)>>) -> Seq<
    Option<(Seq<char>, u32)>,
> {
    Seq::new(
        table.len(),
        |e: int|
            match bound_lightmap(nodes, e) {
                Some(id) => Some((id, DEFAULT_EXPOSURE)),
                None => table[e],
            },
    )
}

/// The run flag and the bindings after one invocation of the pass.
pub open spec fn setup_outcome(
    nodes: Seq<SceneNode>,
    single_run: bool,
    table: Seq<Option<(Seq<char>, u32)>>,
) -> (bool, Seq<Option<(Seq<char>, u32)>>) {
    if single_run {
        (true, table)
    } else {
        (true, annotated(nodes, table))
    }
}

/// Indices of the nodes whose metadata the pass reports as undecodable, in
/// scan order.
pub open spec fn malformed_nodes(nodes: Seq<SceneNode>) -> Seq<usize>
    decreases nodes.len(),
{
    if nodes.len() == 0 {
        seq![]
    } else {
        let prev = malformed_nodes(nodes.drop_last());
        if reports_malformed(nodes.last()) {
            prev.push((nodes.len() - 1) as usize)
        } else {
            prev
        }
    }
}

/// The annotation pass. Unless `single_run` is already set, scans every
/// node, binds the lightmap of each node that references one to its named
/// immediate children, sets `single_run`, and returns the indices of the
/// nodes whose metadata could not be decoded. A malformed node is skipped
/// and the scan goes on. Once `single_run` is set, the call changes nothing
/// and returns no indices.
pub fn setup(
    nodes: &Vec<SceneNode>,
    bindings: &mut Vec<Option<LightmapInfo>>,
    single_run: &mut bool,
) -> (malformed: Vec<usize>)
    requires
        old(bindings)@.len() == nodes@.len(),
    ensures
        (*final(single_run), binding_table(final(bindings)@)) == setup_outcome(
            nodes@,
            *old(single_run),
            binding_table(old(bindings)@),
        ),
        malformed@ == if *old(single_run) {
            Seq::<usize>::empty()
        } else {
            malformed_nodes(nodes@)
        },
{
    let mut malformed: Vec<usize> = Vec::new();
    if *single_run {
        return malformed;
    }
    let n = nodes.len();
    let mut refs: Vec<Option<String>> = Vec::new();
    let mut i: usize = 0;
    while i < n
        invariant
            n == nodes@.len(),
            i <= n,
            refs@.len() == i,
            forall|k: int|
                0 <= k < i ==> (match #[trigger] refs@[k] {
                    Some(s) => Some(s@),
                    None => None,
                }) == lightmap_ref(nodes@[k]),
            malformed@ == malformed_nodes(nodes@.subrange(0, i as int)),
        decreases n - i,
    {
        let node = &nodes[i];
        let mut r: Option<String> = None;
        if node.name.is_some() {
            match &node.extras {
                Extras::Absent => {},
                Extras::Malformed => {
                    malformed.push(i);
                },
                Extras::Parsed(v) => {
                    if let Some(s) = &v.tlm_lightmap {
                        r = Some(s.clone());
                    }
                },
            }
        }
        refs.push(r);
        assert(nodes@.subrange(0, i + 1).drop_last() =~= nodes@.subrange(0, i as int));
        i += 1;
    }
    assert(nodes@.subrange(0, n as int) =~= nodes@);

    let ghost before = binding_table(bindings@);
    let mut e: usize = 0;
    while e < n
        invariant
            n == nodes@.len(),
            e <= n,
            bindings@.len() == n,
            before.len() == n,
            refs@.len() == n,
            forall|k: int|
                0 <= k < n ==> (match #[trigger] refs@[k] {
                    Some(s) => Some(s@),
                    None => None,
                }) == lightmap_ref(nodes@[k]),
            forall|k: int|
                0 <= k < e ==> info_view(#[trigger] bindings@[k]) == annotated(nodes@, before)[k],
            forall|k: int| e <= k < n ==> info_view(#[trigger] bindings@[k]) == before[k],
        decreases n - e,
    {
        let node = &nodes[e];
        if node.name.is_some() {
            if let Some(p) = node.parent {
                if p < n {
                    if let Some(id) = &refs[p] {
                        bindings.set(
                            e,
                            Some(LightmapInfo { lightmap_name: id.clone(), exposure: DEFAULT_EXPOSURE }),
                        );
                    }
                }
            }
        }
        e += 1;
    }
    assert(binding_table(bindings@) =~= annotated(nodes@, before));
    *single_run = true;
    malformed
}

/// Running the pass a second time on what the first run left changes
/// nothing: the run flag stays set and every binding stays as it was. Even a
/// second scan without the run flag would leave the bindings as they are.
pub proof fn lemma_setup_idempotent(
    nodes: Seq<SceneNode>,
    single_run: bool,
    table: Seq<Option<(Seq<char>, u32)>>,
)
    ensures
        ({
            let once = setup_outcome(nodes, single_run, table);
            setup_outcome(nodes, once.0, once.1) == once
        }),
        annotated(nodes, annotated(nodes, table)) == annotated(nodes, table),
{
    assert(annotated(nodes, annotated(nodes, table)) =~= annotated(nodes, table));
}

/// A node whose metadata is malformed affects no binding but those of its
/// own children: in a scene that differs from another only in node `x`'s
/// metadata being malformed, every node whose parent is not `x` ends up with
/// the same binding, and the children of `x` keep what they had.
pub proof fn lemma_malformed_does_not_block(
    nodes: Seq<SceneNode>,
    damaged: Seq<SceneNode>,
    table: Seq<Option<(Seq<char>, u32)>>,
    x: usize,
)
    requires
        0 <= x < nodes.len(),
        damaged.len() == nodes.len(),
        table.len() == nodes.len(),
        forall|i: int| 0 <= i < nodes.len() && i != x as int ==> damaged[i] == nodes[i],
        damaged[x as int].name == nodes[x as int].name,
        damaged[x as int].parent == nodes[x as int].parent,
        damaged[x as int].extras is Malformed,
    ensures
        forall|c: int|
            0 <= c < nodes.len() && nodes[c].parent != Some(x) ==> annotated(damaged, table)[c]
                == annotated(nodes, table)[c],
        forall|c: int|
            0 <= c < nodes.len() && nodes[c].parent == Some(x) ==> annotated(damaged, table)[c]
                == table[c],
{
}

/// Only a named node whose immediate parent references a lightmap receives
/// a binding, and it receives exactly that parent's lightmap with the
/// default exposure; all other nodes (grandchildren, unnamed children,
/// nodes elsewhere) keep what they had.
pub proof fn lemma_bound_only_immediate_named_children(
    nodes: Seq<SceneNode>,
    table: Seq<Option<(Seq<char>, u32)>>,
    c: int,
)
    requires
        table.len() == nodes.len(),
        0 <= c < nodes.len(),
    ensures
        annotated(nodes, table)[c] == (match nodes[c].parent {
            Some(p) => if nodes[c].name is Some && p < nodes.len() && lightmap_ref(
                nodes[p as int],
            ) is Some {
                Some((lightmap_ref(nodes[p as int])->0, DEFAULT_EXPOSURE))
            } else {
                table[c]
            },
            None => table[c],
        }),
{
}

} // verus!

//! Binding of baked lightmaps to the surfaces of an imported scene.
//!
//! The scene is described by plain values: each node has an optional name,
//! the result of decoding its metadata, and an optional parent. Two passes
//! work on it. The annotation pass ([`setup`]) finds lightmap references in
//! node metadata and binds them to the named immediate children. The
//! application pass ([`apply_lightmaps`]) turns bindings into texture loads
//! once, then polls until every load has completed.

mod annotation;
mod application;
mod scene;

pub use annotation::{
    annotated,
    info_view,
    malformed_nodes,
    reports_malformed,
    binding_table,
    bound_lightmap,
    lemma_bound_only_immediate_named_children,
    lemma_malformed_does_not_block,
    lemma_setup_idempotent,
    lightmap_ref,
    setup,
    setup_outcome,
};
pub use application::{
    all_loaded,
    apply_lightmaps,
    apply_outcome,
    has_issued,
    issued_per_tick,
    lemma_completion_gating,
    lemma_done_has_nothing_pending,
    lemma_single_issue,
    lightmap_path,
    lightmap_path_of,
    load_for,
    load_views,
    path_views,
    BoundSurface,
    LightmapLoad,
    LoadState,
};
pub use scene::{Extras, GltfExtrasValue, LightmapInfo, LightmapRegistry, SceneNode, DEFAULT_EXPOSURE};

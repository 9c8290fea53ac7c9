use vstd::prelude::*;

verus! {

/// Exposure given to every binding that the annotation pass creates.
pub const DEFAULT_EXPOSURE: u32 = 1000;

/// The recognised part of a node's metadata: the optional lightmap identifier
/// stored under the `TLM_Lightmap` field.
#[derive(Debug)]
pub struct GltfExtrasValue {
    pub tlm_lightmap: Option<String>,
}

/// What decoding a node's metadata blob gave.
#[derive(Debug)]
pub enum Extras {
    /// The node carries no metadata blob.
    Absent,
    /// The blob is present but does not decode against the schema.
    Malformed,
    /// The blob decoded.
    Parsed(GltfExtrasValue),
}

/// One node of the imported scene graph, identified by its index in the
/// scene's node list.
#[derive(Debug)]
pub struct SceneNode {
    pub name: Option<String>,
    pub extras: Extras,
    /// Index of the parent node, if the node has one.
    pub parent: Option<usize>,
}

/// The binding of a lightmap to a surface.
#[derive(Debug)]
pub struct LightmapInfo {
    pub lightmap_name: String,
    pub exposure: u32,
}

impl View for LightmapInfo {
    type V = (Seq<char>, u32);

    open spec fn view(&self) -> (Seq<char>, u32) {
        (self.lightmap_name@, self.exposure)
    }
}

/// A mapping from lightmap names to asset paths. Neither pass fills or reads
/// it; it is kept for hosts that want to index their lightmaps by name.
#[derive(Debug, Default)]
pub struct LightmapRegistry {
    pub map: Vec<(String, String)>,
}

impl LightmapRegistry {
    pub fn new() -> (r: LightmapRegistry)
        ensures
            r.map@.len() == 0,
    {
        LightmapRegistry { map: Vec::new() }
    }
}

} // verus!

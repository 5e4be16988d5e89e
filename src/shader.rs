//! The shaders that draw the coordinate grid in each projection.

use vstd::prelude::*;

verus! {

/// The names of a vertex shader and of a fragment shader.
#[derive(Clone, Copy, Debug)]
pub struct ShaderId {
    pub vertex: &'static str,
    pub fragment: &'static str,
}

/// Vertex shader shared by the grids of all projections.
pub open spec fn grid_vertex_shader() -> Seq<char> {
    "GridVS"@
}

/// A projection that has a shader drawing its coordinate grid.
pub trait GridShaderProjection {
    /// Name of the fragment shader that draws the grid in this projection.
    spec fn grid_fragment_shader() -> Seq<char>;

    fn get_grid_shader() -> (r: ShaderId)
        ensures
            r.vertex@ == grid_vertex_shader(),
            r.fragment@ == Self::grid_fragment_shader();
}

pub struct Aitoff;

pub struct Mollweide;

pub struct AzimuthalEquidistant;

pub struct Gnomonic;

pub struct Mercator;

pub struct Orthographic;

impl GridShaderProjection for Aitoff {
    open spec fn grid_fragment_shader() -> Seq<char> {
        "GridAitoffFS"@
    }

    fn get_grid_shader() -> (r: ShaderId) {
        proof {
            reveal_strlit("GridVS");
            reveal_strlit("GridAitoffFS");
        }
        ShaderId { vertex: "GridVS", fragment: "GridAitoffFS" }
    }
}

impl GridShaderProjection for Mollweide {
    open spec fn grid_fragment_shader() -> Seq<char> {
        "GridMollFS"@
    }

    fn get_grid_shader() -> (r: ShaderId) {
        proof {
            reveal_strlit("GridVS");
            reveal_strlit("GridMollFS");
        }
        ShaderId { vertex: "GridVS", fragment: "GridMollFS" }
    }
}

impl GridShaderProjection for AzimuthalEquidistant {
    open spec fn grid_fragment_shader() -> Seq<char> {
        "GridOrthoFS"@
    }

    fn get_grid_shader() -> (r: ShaderId) {
        proof {
            reveal_strlit("GridVS");
            reveal_strlit("GridOrthoFS");
        }
        ShaderId { vertex: "GridVS", fragment: "GridOrthoFS" }
    }
}

impl GridShaderProjection for Gnomonic {
    open spec fn grid_fragment_shader() -> Seq<char> {
        "GridOrthoFS"@
    }

    fn get_grid_shader() -> (r: ShaderId) {
        proof {
            reveal_strlit("GridVS");
            reveal_strlit("GridOrthoFS");
        }
        ShaderId { vertex: "GridVS", fragment: "GridOrthoFS" }
    }
}

impl GridShaderProjection for Mercator {
    open spec fn grid_fragment_shader() -> Seq<char> {
        "GridMercatorFS"@
    }

    fn get_grid_shader() -> (r: ShaderId) {
        proof {
            reveal_strlit("GridVS");
            reveal_strlit("GridMercatorFS");
        }
        ShaderId { vertex: "GridVS", fragment: "GridMercatorFS" }
    }
}

impl GridShaderProjection for Orthographic {
    open spec fn grid_fragment_shader() -> Seq<char> {
        "GridOrthoFS"@
    }

    fn get_grid_shader() -> (r: ShaderId) {
        proof {
            reveal_strlit("GridVS");
            reveal_strlit("GridOrthoFS");
        }
        ShaderId { vertex: "GridVS", fragment: "GridOrthoFS" }
    }
}

} // verus!

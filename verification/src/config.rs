//! The sections of a project configuration file. Numeric fields have the
//! type parameter `N`: the application reads them as `f32`, and the TOML
//! layout works on their decimal text.
use vstd::prelude::*;

verus! {

/// Section `[modelling]`: size of the modelled area, cell size and run time.
#[derive(Clone, Copy, Debug)]
pub struct Modelling<N> {
    pub sizex: N,
    pub sizey: N,
    pub dx: N,
    pub dy: N,
    pub maxtime: N,
}

/// One `[[geometry.rectangle]]` entry.
#[derive(Clone, Debug)]
pub struct RectangleDef<N> {
    pub x1: N,
    pub y1: N,
    pub x2: N,
    pub y2: N,
    pub eps: N,
    pub mu: N,
    pub sigma: N,
    pub color: String,
}

/// A boundary condition (`type`, `param1`, `param2`, each optional).
#[derive(Clone, Debug)]
pub struct BoundaryCondition {
    pub type_: Option<String>,
    pub param1: Option<String>,
    pub param2: Option<String>,
}

/// Section `[boundary]`: one optional condition per side.
#[derive(Clone, Debug)]
pub struct BoundarySection {
    pub xmin: Option<BoundaryCondition>,
    pub xmax: Option<BoundaryCondition>,
    pub ymin: Option<BoundaryCondition>,
    pub ymax: Option<BoundaryCondition>,
}

impl Default for BoundarySection {
    /// No condition on any side (the value of a missing `[boundary]`).
    fn default() -> (r: BoundarySection)
        ensures
            r.xmin is None,
            r.xmax is None,
            r.ymin is None,
            r.ymax is None,
    {
        BoundarySection { xmin: None, xmax: None, ymin: None, ymax: None }
    }
}

/// Section `[geometry]`.
#[derive(Clone, Debug)]
pub struct GeometrySection<N> {
    pub rectangle: Vec<RectangleDef<N>>,
}

/// One `[[probes.probe]]` entry.
#[derive(Clone, Debug)]
pub struct ProbeDef<N> {
    pub x: N,
    pub y: N,
    pub color: String,
}

/// Section `[probes]`.
#[derive(Clone, Debug)]
pub struct ProbesSection<N> {
    pub probe: Vec<ProbeDef<N>>,
}

impl<N> Default for ProbesSection<N> {
    /// No probes (the value of a missing `[probes]`).
    fn default() -> (r: ProbesSection<N>)
        ensures
            r.probe@.len() == 0,
    {
        ProbesSection { probe: Vec::new() }
    }
}

/// One `[[sources.cylindrical]]` entry.
#[derive(Clone, Debug)]
pub struct CylindricalSourceDef<N> {
    pub x: N,
    pub y: N,
    pub type_: Option<String>,
    pub param1: Option<String>,
    pub param2: Option<String>,
}

/// One `[[sources.planewave]]` entry.
#[derive(Clone, Debug)]
pub struct PlaneWaveSourceDef<N> {
    pub x1: N,
    pub y1: N,
    pub x2: N,
    pub y2: N,
    pub type_: Option<String>,
    pub param1: Option<String>,
    pub param2: Option<String>,
}

/// Section `[sources]`.
#[derive(Clone, Debug)]
pub struct SourcesSection<N> {
    pub cylindrical: Vec<CylindricalSourceDef<N>>,
    pub planewave: Vec<PlaneWaveSourceDef<N>>,
}

impl<N> Default for SourcesSection<N> {
    /// No sources (the value of a missing `[sources]`).
    fn default() -> (r: SourcesSection<N>)
        ensures
            r.cylindrical@.len() == 0,
            r.planewave@.len() == 0,
    {
        SourcesSection { cylindrical: Vec::new(), planewave: Vec::new() }
    }
}

/// A whole configuration file.
#[derive(Clone, Debug)]
pub struct Config<N> {
    pub description: Option<String>,
    pub modelling: Modelling<N>,
    pub boundary: BoundarySection,
    pub geometry: GeometrySection<N>,
    pub probes: ProbesSection<N>,
    pub sources: SourcesSection<N>,
}

} // verus!

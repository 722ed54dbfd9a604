//! Objects of a project and the project settings built from a configuration.
use vstd::prelude::*;
use crate::config::{Config, CylindricalSourceDef, ProbeDef, RectangleDef};

verus! {

/// Description used when a project has none.
pub const DEFAULT_DESCRIPTION: &'static str = "Временная конфигурация";

/// Kind of a project object.
#[derive(Clone, Copy, Debug, PartialEq, Eq, Structural)]
pub enum ObjectType {
    Rectangle,
    Source,
    Probe,
}

impl ObjectType {
    /// The kind that the type switch of the settings window selects next:
    /// rectangle, then source, then probe, then rectangle again.
    pub open spec fn spec_next(self) -> ObjectType {
        match self {
            ObjectType::Rectangle => ObjectType::Source,
            ObjectType::Source => ObjectType::Probe,
            ObjectType::Probe => ObjectType::Rectangle,
        }
    }

    /// Cycles rectangle -> source -> probe -> rectangle.
    pub fn next(self) -> (r: ObjectType)
        ensures
            r == self.spec_next(),
    {
        match self {
            ObjectType::Rectangle => ObjectType::Source,
            ObjectType::Source => ObjectType::Probe,
            ObjectType::Probe => ObjectType::Rectangle,
        }
    }

    /// Name shown in the object lists.
    pub fn label(self) -> (r: &'static str)
        ensures
            self == ObjectType::Rectangle ==> r@ == "Прямоугольник"@,
            self == ObjectType::Source ==> r@ == "Источник"@,
            self == ObjectType::Probe ==> r@ == "Зонд"@,
    {
        match self {
            ObjectType::Rectangle => "Прямоугольник",
            ObjectType::Source => "Источник",
            ObjectType::Probe => "Зонд",
        }
    }
}

/// The type switch returns to its starting kind after three presses, and
/// never before.
pub proof fn lemma_type_cycle(t: ObjectType)
    ensures
        t.spec_next().spec_next().spec_next() == t,
        t.spec_next() != t,
        t.spec_next().spec_next() != t,
{
}

/// An object of the project: a rectangle `(x1, y1)-(x2, y2)` with its
/// permittivity and permeability, or a point (source or probe) at `(x1, y1)`.
#[derive(Clone, Debug)]
pub struct ProjectObject<N> {
    pub object_type: ObjectType,
    pub x1: N,
    pub y1: N,
    pub x2: Option<N>,
    pub y2: Option<N>,
    pub eps: Option<N>,
    pub mu: Option<N>,
}

/// The object for a rectangle entry of the configuration.
pub open spec fn rectangle_object<N>(r: RectangleDef<N>) -> ProjectObject<N> {
    ProjectObject {
        object_type: ObjectType::Rectangle,
        x1: r.x1,
        y1: r.y1,
        x2: Some(r.x2),
        y2: Some(r.y2),
        eps: Some(r.eps),
        mu: Some(r.mu),
    }
}

/// A point object of the given kind at `(x, y)`.
pub open spec fn point_object<N>(t: ObjectType, x: N, y: N) -> ProjectObject<N> {
    ProjectObject { object_type: t, x1: x, y1: y, x2: None, y2: None, eps: None, mu: None }
}

/// The object for a probe entry of the configuration.
pub open spec fn probe_object<N>(p: ProbeDef<N>) -> ProjectObject<N> {
    point_object(ObjectType::Probe, p.x, p.y)
}

/// The object for a cylindrical source entry of the configuration.
pub open spec fn source_object<N>(s: CylindricalSourceDef<N>) -> ProjectObject<N> {
    point_object(ObjectType::Source, s.x, s.y)
}

/// The objects of a configuration: its rectangles, then its probes, then its
/// cylindrical sources, each group in file order (plane waves are not
/// project objects).
pub open spec fn config_objects<N>(cfg: Config<N>) -> Seq<ProjectObject<N>> {
    cfg.geometry.rectangle@.map_values(|r: RectangleDef<N>| rectangle_object(r))
        + cfg.probes.probe@.map_values(|p: ProbeDef<N>| probe_object(p))
        + cfg.sources.cylindrical@.map_values(|s: CylindricalSourceDef<N>| source_object(s))
}

/// A project description, or the default one when it is missing or empty.
pub open spec fn effective_description(d: Option<Seq<char>>) -> Seq<char> {
    match d {
        Some(s) => if s.len() > 0 { s } else { DEFAULT_DESCRIPTION@ },
        None => DEFAULT_DESCRIPTION@,
    }
}

/// Parameters of a project: description, modelled area, cell size, run time
/// and objects.
#[derive(Clone, Debug)]
pub struct ProjectSettings<N> {
    pub description: String,
    pub sizex: N,
    pub sizey: N,
    pub dx: N,
    pub dy: N,
    pub maxtime: N,
    pub objects: Vec<ProjectObject<N>>,
}

impl<N> ProjectSettings<N> {
    /// Whether the project has an object; the settings dialog refuses to
    /// write a project without one.
    pub fn has_objects(&self) -> (r: bool)
        ensures
            r == (self.objects@.len() > 0),
    {
        self.objects.len() > 0
    }
}

impl<N: Copy> ProjectSettings<N> {
    /// A project with the default description, the given area, cell size and
    /// run time, and no objects.
    pub fn empty(sizex: N, sizey: N, dx: N, dy: N, maxtime: N) -> (r: ProjectSettings<N>)
        ensures
            r.description@ == DEFAULT_DESCRIPTION@,
            r.sizex == sizex,
            r.sizey == sizey,
            r.dx == dx,
            r.dy == dy,
            r.maxtime == maxtime,
            r.objects@.len() == 0,
    {
        ProjectSettings {
            description: String::from_str(DEFAULT_DESCRIPTION),
            sizex,
            sizey,
            dx,
            dy,
            maxtime,
            objects: Vec::new(),
        }
    }

    /// The settings of a loaded configuration: its description (the default
    /// one when missing or empty), its `[modelling]` values, and its
    /// rectangles, probes and cylindrical sources as objects, in that order.
    pub fn from_config(cfg: &Config<N>) -> (r: ProjectSettings<N>)
        ensures
            r.description@ == effective_description(
                match cfg.description {
                    Some(d) => Some(d@),
                    None => None,
                },
            ),
            r.sizex == cfg.modelling.sizex,
            r.sizey == cfg.modelling.sizey,
            r.dx == cfg.modelling.dx,
            r.dy == cfg.modelling.dy,
            r.maxtime == cfg.modelling.maxtime,
            r.objects@ == config_objects(*cfg),
    {
        let mut objects: Vec<ProjectObject<N>> = Vec::new();
        let rects = &cfg.geometry.rectangle;
        let n_rects = rects.len();
        for i in 0..n_rects
            invariant
                n_rects == rects@.len(),
                objects@ == rects@.take(i as int).map_values(|r: RectangleDef<N>| rectangle_object(r)),
        {
            let r = &rects[i];
            objects.push(
                ProjectObject {
                    object_type: ObjectType::Rectangle,
                    x1: r.x1,
                    y1: r.y1,
                    x2: Some(r.x2),
                    y2: Some(r.y2),
                    eps: Some(r.eps),
                    mu: Some(r.mu),
                },
            );
            assert(rects@.take(i + 1) == rects@.take(i as int).push(rects@[i as int]));
        }
        assert(rects@.take(n_rects as int) == rects@);
        let ghost rect_part = objects@;

        let probes = &cfg.probes.probe;
        let n_probes = probes.len();
        for i in 0..n_probes
            invariant
                n_probes == probes@.len(),
                objects@ == rect_part + probes@.take(i as int).map_values(|p: ProbeDef<N>| probe_object(p)),
        {
            let p = &probes[i];
            objects.push(
                ProjectObject {
                    object_type: ObjectType::Probe,
                    x1: p.x,
                    y1: p.y,
                    x2: None,
                    y2: None,
                    eps: None,
                    mu: None,
                },
            );
            assert(probes@.take(i + 1) == probes@.take(i as int).push(probes@[i as int]));
        }
        assert(probes@.take(n_probes as int) == probes@);
        let ghost probe_part = objects@;

        let sources = &cfg.sources.cylindrical;
        let n_sources = sources.len();
        for i in 0..n_sources
            invariant
                n_sources == sources@.len(),
                objects@ == probe_part + sources@.take(i as int).map_values(
                    |s: CylindricalSourceDef<N>| source_object(s),
                ),
        {
            let s = &sources[i];
            objects.push(
                ProjectObject {
                    object_type: ObjectType::Source,
                    x1: s.x,
                    y1: s.y,
                    x2: None,
                    y2: None,
                    eps: None,
                    mu: None,
                },
            );
            assert(sources@.take(i + 1) == sources@.take(i as int).push(sources@[i as int]));
        }
        assert(sources@.take(n_sources as int) == sources@);

        let description = match &cfg.description {
            Some(d) => if d.as_str().is_empty() {
                String::from_str(DEFAULT_DESCRIPTION)
            } else {
                d.clone()
            },
            None => String::from_str(DEFAULT_DESCRIPTION),
        };
        ProjectSettings {
            description,
            sizex: cfg.modelling.sizex,
            sizey: cfg.modelling.sizey,
            dx: cfg.modelling.dx,
            dy: cfg.modelling.dy,
            maxtime: cfg.modelling.maxtime,
            objects,
        }
    }

    /// Adds an object at the end of the project's list.
    pub fn add_object(&mut self, object: ProjectObject<N>)
        ensures
            final(self).objects@ == old(self).objects@.push(object),
            final(self).description@ == old(self).description@,
            final(self).sizex == old(self).sizex,
            final(self).sizey == old(self).sizey,
            final(self).dx == old(self).dx,
            final(self).dy == old(self).dy,
            final(self).maxtime == old(self).maxtime,
    {
        self.objects.push(object);
    }
}

} // verus!

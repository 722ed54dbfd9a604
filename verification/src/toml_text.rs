//! Text layout of project configuration files.
use vstd::prelude::*;
use crate::config::{Config, CylindricalSourceDef, ProbeDef, RectangleDef};
use crate::objects::{
    config_objects, effective_description, probe_object, rectangle_object, source_object, ObjectType, ProjectObject,
    ProjectSettings, DEFAULT_DESCRIPTION,
};

verus! {

pub const NEWLINE: &'static str = "\n";
pub const DESCRIPTION_OPEN: &'static str = "description = \"";
pub const DESCRIPTION_CLOSE: &'static str = "\"\n";
pub const MODELLING_HEADER: &'static str = "\n[modelling]\n";
pub const SIZEX_KEY: &'static str = "sizex = ";
pub const SIZEY_KEY: &'static str = "sizey = ";
pub const DX_KEY: &'static str = "dx = ";
pub const DY_KEY: &'static str = "dy = ";
pub const MAXTIME_KEY: &'static str = "maxtime = ";
/// Four perfectly conducting walls.
pub const BOUNDARY_BLOCK: &'static str = "\n[boundary]\n  [boundary.xmin]\n  type = \"PEC\"\n  param1 = \"...\"\n  param2 = \"...\"\n  [boundary.xmax]\n  type = \"PEC\"\n  param1 = \"...\"\n  param2 = \"...\"\n  [boundary.ymin]\n  type = \"PEC\"\n  param1 = \"...\"\n  param2 = \"...\"\n  [boundary.ymax]\n  type = \"PEC\"\n  param1 = \"...\"\n  param2 = \"...\"\n";
pub const GEOMETRY_HEADER: &'static str = "\n[geometry]\n";
pub const PROBES_HEADER: &'static str = "\n[probes]\n";
pub const SOURCES_HEADER: &'static str = "\n[sources]\n";
pub const RECTANGLE_OPEN: &'static str = "  [[geometry.rectangle]]\n";
pub const X1_KEY: &'static str = "  x1 = ";
pub const Y1_KEY: &'static str = "  y1 = ";
pub const X2_KEY: &'static str = "  x2 = ";
pub const Y2_KEY: &'static str = "  y2 = ";
pub const EPS_KEY: &'static str = "  eps = ";
pub const MU_KEY: &'static str = "  mu = ";
pub const RECTANGLE_CLOSE: &'static str = "  sigma = 0.01\n  color = \"0, 0, 255\"\n";
pub const PROBE_OPEN: &'static str = "  [[probes.probe]]\n";
pub const X_KEY: &'static str = "  x = ";
pub const Y_KEY: &'static str = "  y = ";
pub const PROBE_CLOSE: &'static str = "  color = \"0, 255, 255\"\n";
pub const SOURCE_OPEN: &'static str = "  [[sources.cylindrical]]\n";
pub const SOURCE_CLOSE: &'static str = "  type = \"sin\"\n  param1 = \"...\"\n  param2 = \"...\"\n";

/// `key`, the value text and a line break.
pub open spec fn key_line(key: Seq<char>, value: Seq<char>) -> Seq<char> {
    key + value + NEWLINE@
}

/// The `[[geometry.rectangle]]` entry of a rectangle (conductivity and colour
/// are fixed).
pub open spec fn rectangle_text(
    x1: Seq<char>,
    y1: Seq<char>,
    x2: Seq<char>,
    y2: Seq<char>,
    eps: Seq<char>,
    mu: Seq<char>,
) -> Seq<char> {
    RECTANGLE_OPEN@ + key_line(X1_KEY@, x1) + key_line(Y1_KEY@, y1) + key_line(X2_KEY@, x2)
        + key_line(Y2_KEY@, y2) + key_line(EPS_KEY@, eps) + key_line(MU_KEY@, mu) + RECTANGLE_CLOSE@
}

/// The `[[probes.probe]]` entry of a probe at `(x, y)`.
pub open spec fn probe_text(x: Seq<char>, y: Seq<char>) -> Seq<char> {
    PROBE_OPEN@ + key_line(X_KEY@, x) + key_line(Y_KEY@, y) + PROBE_CLOSE@
}

/// The `[[sources.cylindrical]]` entry of a sinusoidal source at `(x, y)`.
pub open spec fn source_text(x: Seq<char>, y: Seq<char>) -> Seq<char> {
    SOURCE_OPEN@ + key_line(X_KEY@, x) + key_line(Y_KEY@, y) + SOURCE_CLOSE@
}

/// The file entry of an object whose numbers are given as text; a rectangle
/// without its second corner, permittivity or permeability has none.
pub open spec fn object_text(o: ProjectObject<String>) -> Option<Seq<char>> {
    match o.object_type {
        ObjectType::Rectangle => match (o.x2, o.y2, o.eps, o.mu) {
            (Some(x2), Some(y2), Some(eps), Some(mu)) => Some(
                rectangle_text(o.x1@, o.y1@, x2@, y2@, eps@, mu@),
            ),
            _ => None,
        },
        ObjectType::Source => Some(source_text(o.x1@, o.y1@)),
        ObjectType::Probe => Some(probe_text(o.x1@, o.y1@)),
    }
}

/// The entries, in list order, of the objects of kind `t` that have one.
pub open spec fn entries_of(objects: Seq<ProjectObject<String>>, t: ObjectType) -> Seq<char>
    decreases objects.len(),
{
    if objects.len() == 0 {
        Seq::empty()
    } else {
        let last = objects.last();
        entries_of(objects.drop_last(), t) + if last.object_type == t && object_text(last) is Some {
            object_text(last).unwrap()
        } else {
            Seq::empty()
        }
    }
}

/// The whole configuration file of a project: description (the default one
/// when empty), `[modelling]`, PEC walls on all sides, then the rectangles,
/// probes and sources of the project in list order.
pub open spec fn settings_text(s: ProjectSettings<String>) -> Seq<char> {
    DESCRIPTION_OPEN@ + effective_description(Some(s.description@)) + DESCRIPTION_CLOSE@
        + MODELLING_HEADER@ + key_line(SIZEX_KEY@, s.sizex@) + key_line(SIZEY_KEY@, s.sizey@)
        + key_line(DX_KEY@, s.dx@) + key_line(DY_KEY@, s.dy@) + key_line(MAXTIME_KEY@, s.maxtime@)
        + BOUNDARY_BLOCK@ + GEOMETRY_HEADER@ + entries_of(s.objects@, ObjectType::Rectangle)
        + PROBES_HEADER@ + entries_of(s.objects@, ObjectType::Probe) + SOURCES_HEADER@
        + entries_of(s.objects@, ObjectType::Source)
}

fn append_key_line(res: &mut String, key: &str, value: &str)
    ensures
        final(res)@ == old(res)@ + key_line(key@, value@),
{
    res.append(key);
    res.append(value);
    res.append(NEWLINE);
    assert(final(res)@ =~= old(res)@ + key_line(key@, value@));
}

/// Appends the file entry of `o`, if it has one, and tells whether it did.
fn append_object_text(res: &mut String, o: &ProjectObject<String>) -> (written: bool)
    ensures
        written == object_text(*o) is Some,
        written ==> final(res)@ == old(res)@ + object_text(*o).unwrap(),
        !written ==> final(res)@ == old(res)@,
{
    let ghost start = res@;
    match o.object_type {
        ObjectType::Rectangle => match (&o.x2, &o.y2, &o.eps, &o.mu) {
            (Some(x2), Some(y2), Some(eps), Some(mu)) => {
                res.append(RECTANGLE_OPEN);
                append_key_line(res, X1_KEY, o.x1.as_str());
                append_key_line(res, Y1_KEY, o.y1.as_str());
                append_key_line(res, X2_KEY, x2.as_str());
                append_key_line(res, Y2_KEY, y2.as_str());
                append_key_line(res, EPS_KEY, eps.as_str());
                append_key_line(res, MU_KEY, mu.as_str());
                res.append(RECTANGLE_CLOSE);
                assert(res@ =~= start + rectangle_text(o.x1@, o.y1@, x2@, y2@, eps@, mu@));
                true
            },
            _ => false,
        },
        ObjectType::Source => {
            res.append(SOURCE_OPEN);
            append_key_line(res, X_KEY, o.x1.as_str());
            append_key_line(res, Y_KEY, o.y1.as_str());
            res.append(SOURCE_CLOSE);
            assert(res@ =~= start + source_text(o.x1@, o.y1@));
            true
        },
        ObjectType::Probe => {
            res.append(PROBE_OPEN);
            append_key_line(res, X_KEY, o.x1.as_str());
            append_key_line(res, Y_KEY, o.y1.as_str());
            res.append(PROBE_CLOSE);
            assert(res@ =~= start + probe_text(o.x1@, o.y1@));
            true
        },
    }
}

fn same_type(a: ObjectType, b: ObjectType) -> (r: bool)
    ensures
        r == (a == b),
{
    match (a, b) {
        (ObjectType::Rectangle, ObjectType::Rectangle) => true,
        (ObjectType::Source, ObjectType::Source) => true,
        (ObjectType::Probe, ObjectType::Probe) => true,
        _ => false,
    }
}

fn append_entries(res: &mut String, objects: &Vec<ProjectObject<String>>, t: ObjectType)
    ensures
        final(res)@ == old(res)@ + entries_of(objects@, t),
{
    let ghost start = res@;
    let n = objects.len();
    for i in 0..n
        invariant
            n == objects@.len(),
            res@ == start + entries_of(objects@.take(i as int), t),
    {
        let o = &objects[i];
        let ghost before = res@;
        assert(objects@.take(i + 1).drop_last() =~= objects@.take(i as int));
        assert(objects@.take(i + 1).last() == objects@[i as int]);
        if same_type(o.object_type, t) {
            append_object_text(res, o);
        }
        assert(res@ =~= start + entries_of(objects@.take(i + 1), t));
    }
    assert(objects@.take(n as int) =~= objects@);
}

impl ProjectSettings<String> {
    /// The configuration file of the project, with its numbers written as
    /// the given text.
    pub fn to_toml_string(&self) -> (r: String)
        ensures
            r@ == settings_text(*self),
    {
        let mut res = String::new();
        res.append(DESCRIPTION_OPEN);
        if self.description.as_str().is_empty() {
            res.append(DEFAULT_DESCRIPTION);
        } else {
            res.append(self.description.as_str());
        }
        res.append(DESCRIPTION_CLOSE);
        res.append(MODELLING_HEADER);
        append_key_line(&mut res, SIZEX_KEY, self.sizex.as_str());
        append_key_line(&mut res, SIZEY_KEY, self.sizey.as_str());
        append_key_line(&mut res, DX_KEY, self.dx.as_str());
        append_key_line(&mut res, DY_KEY, self.dy.as_str());
        append_key_line(&mut res, MAXTIME_KEY, self.maxtime.as_str());
        res.append(BOUNDARY_BLOCK);
        res.append(GEOMETRY_HEADER);
        append_entries(&mut res, &self.objects, ObjectType::Rectangle);
        res.append(PROBES_HEADER);
        append_entries(&mut res, &self.objects, ObjectType::Probe);
        res.append(SOURCES_HEADER);
        append_entries(&mut res, &self.objects, ObjectType::Source);
        res
    }
}

/// The file entry that is added to a configuration file for one object, or
/// `None` for a rectangle that lacks its second corner, permittivity or
/// permeability.
pub fn object_section(o: &ProjectObject<String>) -> (r: Option<String>)
    ensures
        r is Some <==> object_text(*o) is Some,
        r matches Some(t) ==> t@ == object_text(*o).unwrap(),
{
    let mut res = String::new();
    if append_object_text(&mut res, o) {
        assert(res@ =~= object_text(*o).unwrap());
        Some(res)
    } else {
        None
    }
}

/// The entries of the given rectangle definitions, in order.
pub open spec fn rectangle_entries(rs: Seq<RectangleDef<String>>) -> Seq<char>
    decreases rs.len(),
{
    if rs.len() == 0 {
        Seq::empty()
    } else {
        let r = rs.last();
        rectangle_entries(rs.drop_last()) + rectangle_text(r.x1@, r.y1@, r.x2@, r.y2@, r.eps@, r.mu@)
    }
}

/// The entries of the given probe definitions, in order.
pub open spec fn probe_entries(ps: Seq<ProbeDef<String>>) -> Seq<char>
    decreases ps.len(),
{
    if ps.len() == 0 {
        Seq::empty()
    } else {
        probe_entries(ps.drop_last()) + probe_text(ps.last().x@, ps.last().y@)
    }
}

/// The entries of the given cylindrical source definitions, in order.
pub open spec fn source_entries(ss: Seq<CylindricalSourceDef<String>>) -> Seq<char>
    decreases ss.len(),
{
    if ss.len() == 0 {
        Seq::empty()
    } else {
        source_entries(ss.drop_last()) + source_text(ss.last().x@, ss.last().y@)
    }
}

proof fn lemma_entries_of_concat(a: Seq<ProjectObject<String>>, b: Seq<ProjectObject<String>>, t: ObjectType)
    ensures
        entries_of(a + b, t) == entries_of(a, t) + entries_of(b, t),
    decreases b.len(),
{
    if b.len() == 0 {
        assert(a + b =~= a);
        assert(entries_of(a, t) + entries_of(b, t) =~= entries_of(a, t));
    } else {
        lemma_entries_of_concat(a, b.drop_last(), t);
        assert((a + b).drop_last() =~= a + b.drop_last());
        assert((a + b).last() == b.last());
        let tail = if b.last().object_type == t && object_text(b.last()) is Some {
            object_text(b.last()).unwrap()
        } else {
            Seq::empty()
        };
        assert(entries_of(a, t) + entries_of(b.drop_last(), t) + tail =~= entries_of(a, t) + (
        entries_of(b.drop_last(), t) + tail));
    }
}

proof fn lemma_rectangle_entries(rs: Seq<RectangleDef<String>>, t: ObjectType)
    ensures
        entries_of(rs.map_values(|r: RectangleDef<String>| rectangle_object(r)), t) == if t
            == ObjectType::Rectangle {
            rectangle_entries(rs)
        } else {
            Seq::empty()
        },
    decreases rs.len(),
{
    let os = rs.map_values(|r: RectangleDef<String>| rectangle_object(r));
    if rs.len() > 0 {
        lemma_rectangle_entries(rs.drop_last(), t);
        assert(os.drop_last() =~= rs.drop_last().map_values(|r: RectangleDef<String>| rectangle_object(r)));
        assert(os.last() == rectangle_object(rs.last()));
        if t != ObjectType::Rectangle {
            assert(entries_of(os, t) =~= Seq::<char>::empty());
        }
    }
}

proof fn lemma_probe_entries(ps: Seq<ProbeDef<String>>, t: ObjectType)
    ensures
        entries_of(ps.map_values(|p: ProbeDef<String>| probe_object(p)), t)
            == if t == ObjectType::Probe {
            probe_entries(ps)
        } else {
            Seq::empty()
        },
    decreases ps.len(),
{
    let os = ps.map_values(|p: ProbeDef<String>| probe_object(p));
    if ps.len() > 0 {
        lemma_probe_entries(ps.drop_last(), t);
        assert(os.drop_last() =~= ps.drop_last().map_values(
            |p: ProbeDef<String>| probe_object(p),
        ));
        if t != ObjectType::Probe {
            assert(entries_of(os, t) =~= Seq::<char>::empty());
        }
    }
}

proof fn lemma_source_entries(ss: Seq<CylindricalSourceDef<String>>, t: ObjectType)
    ensures
        entries_of(
            ss.map_values(|s: CylindricalSourceDef<String>| source_object(s)),
            t,
        ) == if t == ObjectType::Source {
            source_entries(ss)
        } else {
            Seq::empty()
        },
    decreases ss.len(),
{
    let os = ss.map_values(|s: CylindricalSourceDef<String>| source_object(s));
    if ss.len() > 0 {
        lemma_source_entries(ss.drop_last(), t);
        assert(os.drop_last() =~= ss.drop_last().map_values(
            |s: CylindricalSourceDef<String>| source_object(s),
        ));
        if t != ObjectType::Source {
            assert(entries_of(os, t) =~= Seq::<char>::empty());
        }
    }
}

/// Writing out a loaded project gives back its rectangles, its probes and
/// its cylindrical sources, each section in the order of the loaded file
/// (plane-wave sources are not project objects and are not written).
pub proof fn lemma_loaded_objects_written_back(cfg: Config<String>)
    ensures
        entries_of(config_objects(cfg), ObjectType::Rectangle) == rectangle_entries(cfg.geometry.rectangle@),
        entries_of(config_objects(cfg), ObjectType::Probe) == probe_entries(cfg.probes.probe@),
        entries_of(config_objects(cfg), ObjectType::Source) == source_entries(cfg.sources.cylindrical@),
{
    let rs = cfg.geometry.rectangle@.map_values(|r: RectangleDef<String>| rectangle_object(r));
    let ps = cfg.probes.probe@.map_values(|p: ProbeDef<String>| probe_object(p));
    let ss = cfg.sources.cylindrical@.map_values(
        |s: CylindricalSourceDef<String>| source_object(s),
    );
    assert(config_objects(cfg) =~= rs + ps + ss);
    let ts = seq![ObjectType::Rectangle, ObjectType::Probe, ObjectType::Source];
    assert forall|i: int| 0 <= i < 3 implies entries_of(config_objects(cfg), #[trigger] ts[i]) == entries_of(
        rs,
        ts[i],
    ) + entries_of(ps, ts[i]) + entries_of(ss, ts[i]) by {
        lemma_entries_of_concat(rs + ps, ss, ts[i]);
        lemma_entries_of_concat(rs, ps, ts[i]);
    }
    lemma_rectangle_entries(cfg.geometry.rectangle@, ObjectType::Rectangle);
    lemma_rectangle_entries(cfg.geometry.rectangle@, ObjectType::Probe);
    lemma_rectangle_entries(cfg.geometry.rectangle@, ObjectType::Source);
    lemma_probe_entries(cfg.probes.probe@, ObjectType::Rectangle);
    lemma_probe_entries(cfg.probes.probe@, ObjectType::Probe);
    lemma_probe_entries(cfg.probes.probe@, ObjectType::Source);
    lemma_source_entries(cfg.sources.cylindrical@, ObjectType::Rectangle);
    lemma_source_entries(cfg.sources.cylindrical@, ObjectType::Probe);
    lemma_source_entries(cfg.sources.cylindrical@, ObjectType::Source);
    assert(ts[0] == ObjectType::Rectangle);
    assert(ts[1] == ObjectType::Probe);
    assert(ts[2] == ObjectType::Source);
    assert(entries_of(config_objects(cfg), ObjectType::Rectangle) =~= rectangle_entries(cfg.geometry.rectangle@));
    assert(entries_of(config_objects(cfg), ObjectType::Probe) =~= probe_entries(cfg.probes.probe@));
    assert(entries_of(config_objects(cfg), ObjectType::Source) =~= source_entries(cfg.sources.cylindrical@));
}

/// `line` occurs in `text` at the start of a line (at the very start, or
/// just after a line feed).
#[verifier::opaque]
pub open spec fn has_line(text: Seq<char>, line: Seq<char>) -> bool {
    exists|k: int|
        #![trigger text.subrange(k, k + line.len())]
        0 <= k && k + line.len() <= text.len() && text.subrange(k, k + line.len()) == line && (k == 0
            || text[k - 1] == '\n')
}

proof fn lemma_has_line(a: Seq<char>, l: Seq<char>, b: Seq<char>)
    requires
        a.len() == 0 || a.last() == '\n',
    ensures
        has_line(a + l + b, l),
{
    reveal(has_line);
    let t = a + l + b;
    let k = a.len() as int;
    assert(t.subrange(k, k + l.len()) =~= l);
    if k > 0 {
        assert(t[k - 1] == a.last());
    }
}

proof fn lemma_ends_line(a: Seq<char>, key: Seq<char>, value: Seq<char>)
    ensures
        (a + key_line(key, value)).last() == '\n',
        key_line(key, value).len() > 0,
        key_line(key, value).last() == '\n',
        key_line(key, value) == key + value + "\n"@,
{
    reveal_strlit("\n");
    let t = a + key_line(key, value);
    assert(t[t.len() - 1] == key_line(key, value)[key_line(key, value).len() - 1]);
}

/// Each value of a rectangle entry stands on a line of its own, after its
/// own key: `x1`, `y1`, `x2`, `y2`, `eps` and `mu` are written as given.
pub proof fn lemma_rectangle_entry_lines(o: ProjectObject<String>)
    requires
        o.object_type == ObjectType::Rectangle,
        o.x2 is Some,
        o.y2 is Some,
        o.eps is Some,
        o.mu is Some,
    ensures
        object_text(o) is Some,
        has_line(object_text(o).unwrap(), "  x1 = "@ + o.x1@ + "\n"@),
        has_line(object_text(o).unwrap(), "  y1 = "@ + o.y1@ + "\n"@),
        has_line(object_text(o).unwrap(), "  x2 = "@ + o.x2.unwrap()@ + "\n"@),
        has_line(object_text(o).unwrap(), "  y2 = "@ + o.y2.unwrap()@ + "\n"@),
        has_line(object_text(o).unwrap(), "  eps = "@ + o.eps.unwrap()@ + "\n"@),
        has_line(object_text(o).unwrap(), "  mu = "@ + o.mu.unwrap()@ + "\n"@),
{
    reveal_strlit("  [[geometry.rectangle]]\n");
    let e = object_text(o).unwrap();
    let r0 = RECTANGLE_OPEN@;
    let l1 = key_line(X1_KEY@, o.x1@);
    let l2 = key_line(Y1_KEY@, o.y1@);
    let l3 = key_line(X2_KEY@, o.x2.unwrap()@);
    let l4 = key_line(Y2_KEY@, o.y2.unwrap()@);
    let l5 = key_line(EPS_KEY@, o.eps.unwrap()@);
    let l6 = key_line(MU_KEY@, o.mu.unwrap()@);
    let rc = RECTANGLE_CLOSE@;
    assert(r0.last() == '\n');
    lemma_ends_line(r0, X1_KEY@, o.x1@);
    lemma_ends_line(r0 + l1, Y1_KEY@, o.y1@);
    lemma_ends_line(r0 + l1 + l2, X2_KEY@, o.x2.unwrap()@);
    lemma_ends_line(r0 + l1 + l2 + l3, Y2_KEY@, o.y2.unwrap()@);
    lemma_ends_line(r0 + l1 + l2 + l3 + l4, EPS_KEY@, o.eps.unwrap()@);
    lemma_ends_line(r0 + l1 + l2 + l3 + l4 + l5, MU_KEY@, o.mu.unwrap()@);
    assert(e =~= r0 + l1 + (l2 + l3 + l4 + l5 + l6 + rc));
    lemma_has_line(r0, l1, l2 + l3 + l4 + l5 + l6 + rc);
    assert(e =~= (r0 + l1) + l2 + (l3 + l4 + l5 + l6 + rc));
    lemma_has_line(r0 + l1, l2, l3 + l4 + l5 + l6 + rc);
    assert(e =~= (r0 + l1 + l2) + l3 + (l4 + l5 + l6 + rc));
    lemma_has_line(r0 + l1 + l2, l3, l4 + l5 + l6 + rc);
    assert(e =~= (r0 + l1 + l2 + l3) + l4 + (l5 + l6 + rc));
    lemma_has_line(r0 + l1 + l2 + l3, l4, l5 + l6 + rc);
    assert(e =~= (r0 + l1 + l2 + l3 + l4) + l5 + (l6 + rc));
    lemma_has_line(r0 + l1 + l2 + l3 + l4, l5, l6 + rc);
    assert(e =~= (r0 + l1 + l2 + l3 + l4 + l5) + l6 + rc);
    lemma_has_line(r0 + l1 + l2 + l3 + l4 + l5, l6, rc);
}

/// The coordinates of a probe or a source stand on lines of their own,
/// after the keys `x` and `y`.
pub proof fn lemma_point_entry_lines(o: ProjectObject<String>)
    requires
        o.object_type != ObjectType::Rectangle,
    ensures
        object_text(o) is Some,
        has_line(object_text(o).unwrap(), "  x = "@ + o.x1@ + "\n"@),
        has_line(object_text(o).unwrap(), "  y = "@ + o.y1@ + "\n"@),
{
    reveal_strlit("  [[probes.probe]]\n");
    reveal_strlit("  [[sources.cylindrical]]\n");
    let e = object_text(o).unwrap();
    let open = if o.object_type == ObjectType::Probe { PROBE_OPEN@ } else { SOURCE_OPEN@ };
    let close = if o.object_type == ObjectType::Probe { PROBE_CLOSE@ } else { SOURCE_CLOSE@ };
    let lx = key_line(X_KEY@, o.x1@);
    let ly = key_line(Y_KEY@, o.y1@);
    assert(open.last() == '\n');
    lemma_ends_line(open, X_KEY@, o.x1@);
    lemma_ends_line(open + lx, Y_KEY@, o.y1@);
    assert(e =~= open + lx + (ly + close));
    lemma_has_line(open, lx, ly + close);
    assert(e =~= (open + lx) + ly + close);
    lemma_has_line(open + lx, ly, close);
}

proof fn lemma_five_lines(
    d: Seq<char>,
    mh: Seq<char>,
    l1: Seq<char>,
    l2: Seq<char>,
    l3: Seq<char>,
    l4: Seq<char>,
    l5: Seq<char>,
    rest: Seq<char>,
)
    requires
        mh.len() > 0 && mh.last() == '\n',
        l1.len() > 0 && l1.last() == '\n',
        l2.len() > 0 && l2.last() == '\n',
        l3.len() > 0 && l3.last() == '\n',
        l4.len() > 0 && l4.last() == '\n',
    ensures
        has_line(d + mh + l1 + l2 + l3 + l4 + l5 + rest, d),
        has_line(d + mh + l1 + l2 + l3 + l4 + l5 + rest, l1),
        has_line(d + mh + l1 + l2 + l3 + l4 + l5 + rest, l2),
        has_line(d + mh + l1 + l2 + l3 + l4 + l5 + rest, l3),
        has_line(d + mh + l1 + l2 + l3 + l4 + l5 + rest, l4),
        has_line(d + mh + l1 + l2 + l3 + l4 + l5 + rest, l5),
{
    let t = d + mh + l1 + l2 + l3 + l4 + l5 + rest;
    let a0 = Seq::<char>::empty();
    let a1 = d + mh;
    let a2 = a1 + l1;
    let a3 = a2 + l2;
    let a4 = a3 + l3;
    let a5 = a4 + l4;
    assert(a1.last() == mh.last());
    assert(a2.last() == l1.last());
    assert(a3.last() == l2.last());
    assert(a4.last() == l3.last());
    assert(a5.last() == l4.last());
    assert(t =~= a0 + d + (mh + l1 + l2 + l3 + l4 + l5 + rest));
    lemma_has_line(a0, d, mh + l1 + l2 + l3 + l4 + l5 + rest);
    assert(t =~= a1 + l1 + (l2 + l3 + l4 + l5 + rest));
    lemma_has_line(a1, l1, l2 + l3 + l4 + l5 + rest);
    assert(t =~= a2 + l2 + (l3 + l4 + l5 + rest));
    lemma_has_line(a2, l2, l3 + l4 + l5 + rest);
    assert(t =~= a3 + l3 + (l4 + l5 + rest));
    lemma_has_line(a3, l3, l4 + l5 + rest);
    assert(t =~= a4 + l4 + (l5 + rest));
    lemma_has_line(a4, l4, l5 + rest);
    assert(t =~= a5 + l5 + rest);
    lemma_has_line(a5, l5, rest);
}

/// The file of a project holds its description and each of its
/// `[modelling]` values on a line of its own, after its own key.
pub proof fn lemma_settings_lines(s: ProjectSettings<String>)
    ensures
        has_line(
            settings_text(s),
            "description = \""@ + effective_description(Some(s.description@)) + "\"\n"@,
        ),
        has_line(settings_text(s), "sizex = "@ + s.sizex@ + "\n"@),
        has_line(settings_text(s), "sizey = "@ + s.sizey@ + "\n"@),
        has_line(settings_text(s), "dx = "@ + s.dx@ + "\n"@),
        has_line(settings_text(s), "dy = "@ + s.dy@ + "\n"@),
        has_line(settings_text(s), "maxtime = "@ + s.maxtime@ + "\n"@),
{
    reveal_strlit("\n[modelling]\n");
    let d = DESCRIPTION_OPEN@ + effective_description(Some(s.description@)) + DESCRIPTION_CLOSE@;
    let mh = MODELLING_HEADER@;
    let l1 = key_line(SIZEX_KEY@, s.sizex@);
    let l2 = key_line(SIZEY_KEY@, s.sizey@);
    let l3 = key_line(DX_KEY@, s.dx@);
    let l4 = key_line(DY_KEY@, s.dy@);
    let l5 = key_line(MAXTIME_KEY@, s.maxtime@);
    let rest = BOUNDARY_BLOCK@ + GEOMETRY_HEADER@ + entries_of(s.objects@, ObjectType::Rectangle)
        + PROBES_HEADER@ + entries_of(s.objects@, ObjectType::Probe) + SOURCES_HEADER@ + entries_of(
        s.objects@,
        ObjectType::Source,
    );
    assert(mh.last() == '\n');
    lemma_ends_line(Seq::empty(), SIZEX_KEY@, s.sizex@);
    lemma_ends_line(Seq::empty(), SIZEY_KEY@, s.sizey@);
    lemma_ends_line(Seq::empty(), DX_KEY@, s.dx@);
    lemma_ends_line(Seq::empty(), DY_KEY@, s.dy@);
    lemma_ends_line(Seq::empty(), MAXTIME_KEY@, s.maxtime@);
    assert(Seq::<char>::empty() + l1 =~= l1);
    assert(Seq::<char>::empty() + l2 =~= l2);
    assert(Seq::<char>::empty() + l3 =~= l3);
    assert(Seq::<char>::empty() + l4 =~= l4);
    assert(l1.len() > 0 && l1.last() == '\n');
    assert(l2.len() > 0 && l2.last() == '\n');
    assert(l3.len() > 0 && l3.last() == '\n');
    assert(l4.len() > 0 && l4.last() == '\n');
    lemma_five_lines(d, mh, l1, l2, l3, l4, l5, rest);
    assert(settings_text(s) =~= d + mh + l1 + l2 + l3 + l4 + l5 + rest);
}

} // verus!

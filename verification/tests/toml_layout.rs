use maxwell::config::{
    BoundarySection, Config, CylindricalSourceDef, GeometrySection, Modelling, ProbeDef,
    ProbesSection, RectangleDef, SourcesSection,
};
use maxwell::document::{add_object_to_document, empty_document, insert_entry_text};
use maxwell::objects::{ObjectType, ProjectObject, ProjectSettings, DEFAULT_DESCRIPTION};
use maxwell::toml_text::object_section;

fn s(x: &str) -> String {
    x.to_string()
}

fn rect(x1: &str, y1: &str, x2: &str, y2: &str, eps: &str, mu: &str) -> ProjectObject<String> {
    ProjectObject {
        object_type: ObjectType::Rectangle,
        x1: s(x1),
        y1: s(y1),
        x2: Some(s(x2)),
        y2: Some(s(y2)),
        eps: Some(s(eps)),
        mu: Some(s(mu)),
    }
}

fn point(t: ObjectType, x: &str, y: &str) -> ProjectObject<String> {
    ProjectObject { object_type: t, x1: s(x), y1: s(y), x2: None, y2: None, eps: None, mu: None }
}

const BOUNDARY: &str = "\n[boundary]\n  [boundary.xmin]\n  type = \"PEC\"\n  param1 = \"...\"\n  param2 = \"...\"\n  [boundary.xmax]\n  type = \"PEC\"\n  param1 = \"...\"\n  param2 = \"...\"\n  [boundary.ymin]\n  type = \"PEC\"\n  param1 = \"...\"\n  param2 = \"...\"\n  [boundary.ymax]\n  type = \"PEC\"\n  param1 = \"...\"\n  param2 = \"...\"\n";

#[test]
fn to_toml_string_writes_all_sections_in_order() {
    let settings = ProjectSettings {
        description: s("demo"),
        sizex: s("0.3"),
        sizey: s("0.2"),
        dx: s("0.001"),
        dy: s("0.001"),
        maxtime: s("1e-9"),
        objects: vec![
            point(ObjectType::Source, "0.1", "0.05"),
            rect("0", "0", "0.1", "0.1", "4", "1"),
            point(ObjectType::Probe, "0.2", "0.1"),
        ],
    };
    let expected = format!(
        "description = \"demo\"\n\n[modelling]\nsizex = 0.3\nsizey = 0.2\ndx = 0.001\ndy = 0.001\nmaxtime = 1e-9\n{}\n[geometry]\n  [[geometry.rectangle]]\n  x1 = 0\n  y1 = 0\n  x2 = 0.1\n  y2 = 0.1\n  eps = 4\n  mu = 1\n  sigma = 0.01\n  color = \"0, 0, 255\"\n\n[probes]\n  [[probes.probe]]\n  x = 0.2\n  y = 0.1\n  color = \"0, 255, 255\"\n\n[sources]\n  [[sources.cylindrical]]\n  x = 0.1\n  y = 0.05\n  type = \"sin\"\n  param1 = \"...\"\n  param2 = \"...\"\n",
        BOUNDARY
    );
    assert_eq!(settings.to_toml_string(), expected);
}

#[test]
fn to_toml_string_uses_default_description_and_skips_incomplete_rectangles() {
    let mut incomplete = rect("1", "2", "3", "4", "5", "6");
    incomplete.mu = None;
    let settings = ProjectSettings {
        description: String::new(),
        sizex: s("1"),
        sizey: s("1"),
        dx: s("0.01"),
        dy: s("0.01"),
        maxtime: s("1"),
        objects: vec![incomplete],
    };
    let text = settings.to_toml_string();
    assert!(text.starts_with(&format!("description = \"{}\"\n", DEFAULT_DESCRIPTION)));
    assert!(text.contains("\n[geometry]\n\n[probes]\n\n[sources]\n"));
    assert!(!text.contains("[[geometry.rectangle]]"));
}

#[test]
fn empty_document_is_the_layout_of_an_empty_project() {
    let expected = format!(
        "description = \"Временная конфигурация\"\n\n[modelling]\nsizex = 1.0\nsizey = 1.0\ndx = 0.01\ndy = 0.01\nmaxtime = 1.0\n{}\n[geometry]\n\n[probes]\n\n[sources]\n",
        BOUNDARY
    );
    assert_eq!(empty_document(), expected);
}

#[test]
fn object_section_texts() {
    assert_eq!(
        object_section(&point(ObjectType::Probe, "1", "2")).unwrap(),
        "  [[probes.probe]]\n  x = 1\n  y = 2\n  color = \"0, 255, 255\"\n"
    );
    assert_eq!(
        object_section(&point(ObjectType::Source, "3", "4")).unwrap(),
        "  [[sources.cylindrical]]\n  x = 3\n  y = 4\n  type = \"sin\"\n  param1 = \"...\"\n  param2 = \"...\"\n"
    );
    let mut r = rect("1", "2", "3", "4", "5", "6");
    assert!(object_section(&r).unwrap().starts_with("  [[geometry.rectangle]]\n  x1 = 1\n"));
    r.x2 = None;
    assert_eq!(object_section(&r), None);
}

#[test]
fn insert_goes_before_next_header() {
    let content = "a\n[geometry]\n  x\n[probes]\nb";
    let out = insert_entry_text(content, "[geometry]", "E\n");
    assert_eq!(out, "a\n[geometry]\n  x\nE\n\n[probes]\nb");
}

#[test]
fn insert_at_end_when_section_is_last_or_missing() {
    assert_eq!(insert_entry_text("[sources]\nx\n", "[sources]", "E"), "[sources]\nx\nE");
    assert_eq!(insert_entry_text("a\nb", "[probes]", "E"), "a\nb\nE");
    assert_eq!(insert_entry_text("", "[probes]", "E"), "E");
    // A header with surrounding spaces still opens the section; an indented
    // sub-table does not close it.
    assert_eq!(
        insert_entry_text("  [probes]  \n  [[probes.probe]]\n[sources]", "[probes]", "E"),
        "  [probes]  \n  [[probes.probe]]\nE\n[sources]"
    );
    // Carriage returns before line feeds are dropped.
    assert_eq!(insert_entry_text("[probes]\r\nq\r\n", "[probes]", "E"), "[probes]\nq\nE");
}

#[test]
fn add_object_to_document_uses_template_when_no_file() {
    let probe = point(ObjectType::Probe, "0.5", "0.25");
    let out = add_object_to_document(None, &probe).unwrap();
    let expected = format!(
        "description = \"Временная конфигурация\"\n\n[modelling]\nsizex = 1.0\nsizey = 1.0\ndx = 0.01\ndy = 0.01\nmaxtime = 1.0\n{}\n[geometry]\n\n[probes]\n\n  [[probes.probe]]\n  x = 0.5\n  y = 0.25\n  color = \"0, 255, 255\"\n\n[sources]",
        BOUNDARY
    );
    assert_eq!(out, expected);
    let mut bad = rect("1", "1", "2", "2", "1", "1");
    bad.eps = None;
    assert_eq!(add_object_to_document(Some("x"), &bad), None);
}

#[test]
fn from_config_orders_rectangles_probes_sources() {
    let cfg = Config {
        description: Some(String::new()),
        modelling: Modelling { sizex: 2.0f32, sizey: 3.0, dx: 0.1, dy: 0.2, maxtime: 5.0 },
        boundary: BoundarySection::default(),
        geometry: GeometrySection {
            rectangle: vec![RectangleDef {
                x1: 0.0,
                y1: 0.5,
                x2: 1.0,
                y2: 1.5,
                eps: 4.0,
                mu: 1.0,
                sigma: 0.01,
                color: s("red"),
            }],
        },
        probes: ProbesSection { probe: vec![ProbeDef { x: 0.7, y: 0.8, color: s("c") }] },
        sources: SourcesSection {
            cylindrical: vec![CylindricalSourceDef {
                x: 0.2,
                y: 0.3,
                type_: None,
                param1: None,
                param2: None,
            }],
            planewave: vec![],
        },
    };
    let p = ProjectSettings::from_config(&cfg);
    assert_eq!(p.description, DEFAULT_DESCRIPTION);
    assert_eq!((p.sizex, p.sizey, p.dx, p.dy, p.maxtime), (2.0, 3.0, 0.1, 0.2, 5.0));
    assert_eq!(p.objects.len(), 3);
    assert_eq!(p.objects[0].object_type, ObjectType::Rectangle);
    assert_eq!((p.objects[0].x2, p.objects[0].eps, p.objects[0].mu), (Some(1.0), Some(4.0), Some(1.0)));
    assert_eq!(p.objects[1].object_type, ObjectType::Probe);
    assert_eq!((p.objects[1].x1, p.objects[1].y1, p.objects[1].x2), (0.7, 0.8, None));
    assert_eq!(p.objects[2].object_type, ObjectType::Source);
    assert_eq!((p.objects[2].x1, p.objects[2].y1), (0.2, 0.3));

    let mut cfg2 = cfg.clone();
    cfg2.description = Some(s("My project"));
    assert_eq!(ProjectSettings::from_config(&cfg2).description, "My project");
    cfg2.description = None;
    assert_eq!(ProjectSettings::from_config(&cfg2).description, DEFAULT_DESCRIPTION);
}

#[test]
fn empty_settings_and_add_object() {
    let mut p = ProjectSettings::empty(1.0f32, 1.0, 0.01, 0.01, 1.0);
    assert_eq!(p.description, DEFAULT_DESCRIPTION);
    assert!(p.objects.is_empty());
    p.add_object(ProjectObject {
        object_type: ObjectType::Probe,
        x1: 0.1,
        y1: 0.2,
        x2: None,
        y2: None,
        eps: None,
        mu: None,
    });
    assert_eq!(p.objects.len(), 1);
    assert_eq!(p.objects[0].x1, 0.1);
}

#[test]
fn a_project_without_objects_is_refused() {
    let mut p = ProjectSettings::empty(1.0f32, 1.0, 0.01, 0.01, 1.0);
    assert!(!p.has_objects());
    p.add_object(ProjectObject {
        object_type: ObjectType::Source,
        x1: 0.5,
        y1: 0.5,
        x2: None,
        y2: None,
        eps: None,
        mu: None,
    });
    assert!(p.has_objects());
}

#[test]
fn object_type_cycle_and_labels() {
    let t = ObjectType::Rectangle;
    assert_eq!(t.next(), ObjectType::Source);
    assert_eq!(t.next().next(), ObjectType::Probe);
    assert_eq!(t.next().next().next(), ObjectType::Rectangle);
    assert_eq!(ObjectType::Rectangle.label(), "Прямоугольник");
    assert_eq!(ObjectType::Source.label(), "Источник");
    assert_eq!(ObjectType::Probe.label(), "Зонд");
}

#[test]
fn loaded_project_is_written_back_in_file_order() {
    let rdef = |x1: f32, eps: f32| RectangleDef {
        x1,
        y1: 0.0f32,
        x2: 1.0,
        y2: 1.0,
        eps,
        mu: 1.0,
        sigma: 0.5,
        color: s("red"),
    };
    let src = |x: f32| CylindricalSourceDef { x, y: 0.5f32, type_: None, param1: None, param2: None };
    let cfg = Config {
        description: Some(s("loaded")),
        modelling: Modelling { sizex: 2.0f32, sizey: 3.0, dx: 0.1, dy: 0.1, maxtime: 4.0 },
        boundary: BoundarySection::default(),
        geometry: GeometrySection { rectangle: vec![rdef(0.2, 2.0), rdef(0.1, 3.0)] },
        probes: ProbesSection { probe: vec![ProbeDef { x: 0.9f32, y: 0.8, color: s("c") }] },
        sources: SourcesSection { cylindrical: vec![src(0.4), src(0.3)], planewave: vec![] },
    };
    let loaded = ProjectSettings::from_config(&cfg);
    let as_text = |v: f32| v.to_string();
    let text_settings = ProjectSettings {
        description: loaded.description.clone(),
        sizex: as_text(loaded.sizex),
        sizey: as_text(loaded.sizey),
        dx: as_text(loaded.dx),
        dy: as_text(loaded.dy),
        maxtime: as_text(loaded.maxtime),
        objects: loaded
            .objects
            .iter()
            .map(|o| ProjectObject {
                object_type: o.object_type,
                x1: as_text(o.x1),
                y1: as_text(o.y1),
                x2: o.x2.map(as_text),
                y2: o.y2.map(as_text),
                eps: o.eps.map(as_text),
                mu: o.mu.map(as_text),
            })
            .collect(),
    };
    let rect_text = |x1: &str, eps: &str| {
        format!(
            "  [[geometry.rectangle]]\n  x1 = {x1}\n  y1 = 0\n  x2 = 1\n  y2 = 1\n  eps = {eps}\n  mu = 1\n  sigma = 0.01\n  color = \"0, 0, 255\"\n"
        )
    };
    let src_text = |x: &str| {
        format!("  [[sources.cylindrical]]\n  x = {x}\n  y = 0.5\n  type = \"sin\"\n  param1 = \"...\"\n  param2 = \"...\"\n")
    };
    let expected = format!(
        "description = \"loaded\"\n\n[modelling]\nsizex = 2\nsizey = 3\ndx = 0.1\ndy = 0.1\nmaxtime = 4\n{}\n[geometry]\n{}{}\n[probes]\n  [[probes.probe]]\n  x = 0.9\n  y = 0.8\n  color = \"0, 255, 255\"\n\n[sources]\n{}{}",
        BOUNDARY,
        rect_text("0.2", "2"),
        rect_text("0.1", "3"),
        src_text("0.4"),
        src_text("0.3")
    );
    assert_eq!(text_settings.to_toml_string(), expected);
}

use maxwell::grid::FdtdGrid;
use maxwell::scene::{first_hit, ObjectList, Scene, SidebarItemType, SidebarSelection};
use maxwell::simulation::{plan_after_step, RunControl, WaveType};

#[test]
fn object_list_numbers_objects_from_one() {
    let list = ObjectList::from_items(vec!['a', 'b', 'c']);
    assert_eq!(list.ids(), &vec![1, 2, 3]);
    assert_eq!(list.next_id(), 4);
    assert_eq!(list.len(), 3);
    let empty: ObjectList<u8> = ObjectList::new();
    assert_eq!(empty.next_id(), 1);
    assert_eq!(empty.len(), 0);
}

#[test]
fn object_list_push_and_remove_never_reuse_numbers() {
    let mut list = ObjectList::from_items(vec![10, 20]);
    list.push(30);
    assert_eq!(list.ids(), &vec![1, 2, 3]);
    assert!(list.remove_at(1));
    assert_eq!(list.items(), &vec![10, 30]);
    assert_eq!(list.ids(), &vec![1, 3]);
    list.push(40);
    assert_eq!(list.ids(), &vec![1, 3, 4]);
    assert_eq!(list.next_id(), 5);
    assert!(!list.remove_at(7));
    assert_eq!(list.items(), &vec![10, 30, 40]);
}

#[test]
fn removing_only_the_item_keeps_numbers() {
    let mut list = ObjectList::from_items(vec![1, 2, 3]);
    assert!(list.remove_item_at(0));
    assert_eq!(list.items(), &vec![2, 3]);
    assert_eq!(list.ids(), &vec![1, 2, 3]);
    assert_eq!(list.display_id(0), 1);
    assert_eq!(list.display_id(5), 6);
}

#[test]
fn first_hit_finds_first_true() {
    assert_eq!(first_hit(&vec![false, true, true]), Some(1));
    assert_eq!(first_hit(&vec![false, false]), None);
    assert_eq!(first_hit(&vec![]), None);
}

#[test]
fn click_prefers_sources_then_probes_then_rectangles() {
    let mut scene: Scene<u8, u8> = Scene::new();
    scene.select_at(&vec![false, true], &vec![true], &vec![true]);
    assert_eq!(scene.selection, Some(SidebarSelection { item_type: SidebarItemType::Source, index: 1 }));
    scene.select_at(&vec![false], &vec![false, false, true], &vec![true]);
    assert_eq!(scene.selection, Some(SidebarSelection { item_type: SidebarItemType::Probe, index: 2 }));
    scene.select_at(&vec![], &vec![], &vec![false, true]);
    assert_eq!(scene.selection, Some(SidebarSelection { item_type: SidebarItemType::Rectangle, index: 1 }));
    scene.select_at(&vec![false], &vec![false], &vec![false]);
    assert_eq!(scene.selection, None);
}

#[test]
fn delete_selected_removes_object_and_number() {
    let mut scene: Scene<char, u8> = Scene::new();
    scene.rectangles = ObjectList::from_items(vec!['x', 'y', 'z']);
    scene.select(SidebarItemType::Rectangle, 1);
    assert!(scene.is_selected(SidebarItemType::Rectangle, 1));
    assert_eq!(scene.selected_index(SidebarItemType::Rectangle), Some(1));
    assert_eq!(scene.selected_index(SidebarItemType::Probe), None);
    scene.delete_selected();
    assert_eq!(scene.rectangles.items(), &vec!['x', 'z']);
    assert_eq!(scene.rectangles.ids(), &vec![1, 3]);
    assert_eq!(scene.selection, None);
    // An index past the end only clears the selection.
    scene.select(SidebarItemType::Rectangle, 9);
    scene.delete_selected();
    assert_eq!(scene.rectangles.items(), &vec!['x', 'z']);
    assert_eq!(scene.selection, None);
}

#[test]
fn delete_from_canvas_keeps_numbers() {
    let mut scene: Scene<u8, char> = Scene::new();
    scene.sources = ObjectList::from_items(vec!['a', 'b']);
    scene.select(SidebarItemType::Source, 0);
    scene.delete_selected_from_canvas();
    assert_eq!(scene.sources.items(), &vec!['b']);
    assert_eq!(scene.sources.ids(), &vec![1, 2]);
    assert_eq!(scene.selection, None);
}

#[test]
fn sidebar_labels() {
    assert_eq!(SidebarItemType::Rectangle.label(), "Прямоугольник");
    assert_eq!(SidebarItemType::Source.label(), "Источник");
    assert_eq!(SidebarItemType::Probe.label(), "Датчик");
}

#[test]
fn run_control_buttons() {
    let mut rc = RunControl::new();
    assert!(!rc.running && !rc.resuming);
    rc.resume();
    assert!(rc.running && rc.resuming);
    rc.start();
    assert!(rc.running && rc.resuming, "start is ignored while running");
    rc.stop();
    assert!(!rc.running && rc.resuming);
    assert!(!rc.restarts());
    rc.start();
    assert!(rc.running && !rc.resuming);
    assert!(rc.restarts());
    rc.finish();
    assert!(!rc.running);
}

#[test]
fn step_plan_even_steps_and_finish() {
    assert_eq!(plan_after_step(2, false).publish_and_pause, true);
    assert_eq!(plan_after_step(3, false).publish_and_pause, false);
    assert_eq!(plan_after_step(3, true).finish, true);
    assert_eq!(plan_after_step(4, false).finish, false);
}

#[test]
fn wave_type_toggle() {
    assert_eq!(WaveType::TE.toggled(), WaveType::TM);
    assert_eq!(WaveType::TM.toggled(), WaveType::TE);
    assert_eq!(WaveType::TE.toggled().toggled(), WaveType::TE);
    assert_eq!(WaveType::TE.label(), "TE");
    assert_eq!(WaveType::TM.label(), "TM");
}

#[test]
fn grid_indexing_and_stepping() {
    let mut g = FdtdGrid::new(300, 200, 4, 150, 100);
    assert_eq!(g.size(), (300, 200));
    assert_eq!(g.total(), 60000);
    assert_eq!(g.idx(0, 0), 0);
    assert_eq!(g.idx(1, 0), 200);
    assert_eq!(g.idx(2, 5), 405);
    assert_eq!(g.idx(299, 199), 59999);
    assert_eq!(g.source_cell(), Some(150 * 200 + 100));
    assert_eq!(g.step_index(), 1);
    assert!(!g.is_finished());
    assert!(!g.advance());
    assert!(!g.advance());
    assert!(g.advance());
    assert_eq!(g.step_index(), 4);
    assert!(g.is_finished());
    g.reset();
    assert_eq!(g.step_index(), 1);
    assert_eq!(g.max_time(), 4);
    let outside = FdtdGrid::new(10, 10, 5, 10, 3);
    assert_eq!(outside.source_cell(), None);
}

#[test]
fn deleting_the_newest_object_does_not_free_its_number() {
    let mut scene: Scene<char, u8> = Scene::new();
    scene.rectangles = ObjectList::from_items(vec!['x', 'y', 'z']);
    scene.select(SidebarItemType::Rectangle, 2);
    scene.delete_selected();
    assert_eq!(scene.rectangles.ids(), &vec![1, 2]);
    assert_eq!(scene.rectangles.next_id(), 4);
    scene.rectangles.push('w');
    assert_eq!(scene.rectangles.ids(), &vec![1, 2, 4]);
    assert_eq!(scene.sources.next_id(), 1);
    assert_eq!(scene.probes.next_id(), 1);
}

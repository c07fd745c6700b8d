use lightspeed::compose::{
    chrome, Chrome, DrawList, Fill, Layer, Place, Quad, Region, TabPlate, TextRegionPlacement,
};
use lightspeed::menu::{menus, row_count, MenuState};
use lightspeed::rich::Role;

fn frame(menu: MenuState) -> Chrome {
    let rows = menu.open.map(|open| row_count(open, &Vec::new())).unwrap_or(0);
    Chrome {
        show_status_bar: true,
        tabs: vec![
            TabPlate { active: true, dirty: false },
            TabPlate { active: false, dirty: true },
        ],
        menu,
        titles: menus().len(),
        dropdown: menu.open.is_some(),
        rows,
        menu_enabled: vec![true; rows],
        status_color: Role::Text,
        prompt: false,
        overlay_panel: false,
        sidebar_panel: false,
        sidebar_selected_row: None,
        sidebar_hovered_row: None,
    }
}

fn opened(open: usize, hovered_item: Option<usize>) -> MenuState {
    MenuState { open: Some(open), hovered_item }
}

#[test]
fn an_open_dropdown_has_a_fully_opaque_background() {
    let list = chrome(&frame(opened(0, None)));
    let fill = list
        .covering_quad(Layer::Overlay, Place::Dropdown)
        .expect("the dropdown's background must be an overlay surface");
    assert_eq!(fill.fill, Fill::MenuBackground);
}

#[test]
fn the_dropdown_background_covers_every_pixel_of_the_panel() {
    let frame = frame(opened(1, None));
    let list = chrome(&frame);
    let fill = list.covering_quad(Layer::Overlay, Place::Dropdown).expect("a covering fill");
    assert_eq!(fill.place, Place::Dropdown);
    for row in 0..frame.rows {
        assert!(
            list.covering_quad(Layer::Overlay, Place::DropdownRow(row)).is_some(),
            "item row {row} is not covered by the panel"
        );
    }
}

#[test]
fn the_dropdown_is_drawn_after_the_editor_rather_than_under_it() {
    let list = chrome(&frame(opened(2, None)));
    assert_eq!(list.layer_of(Region::MenuDropdown), Some(Layer::Overlay));
    assert_eq!(list.layer_of(Region::MenuDropdownDisabled), Some(Layer::Overlay));
    assert_eq!(list.layer_of(Region::Tabs), Some(Layer::Base));
    assert_eq!(list.layer_of(Region::Status), Some(Layer::Base));
    assert!(!list.overlay_quads.is_empty());
    assert!(!list.overlay_text.is_empty());
}

#[test]
fn a_closed_menu_contributes_no_overlay_surface() {
    let list = chrome(&frame(MenuState::default()));
    assert!(list.overlay_quads.is_empty(), "nothing floats over the editor");
    assert!(list.overlay_text.is_empty());
    assert_eq!(list.layer_of(Region::MenuDropdown), None);
}

#[test]
fn every_menu_opens_an_opaque_surface() {
    for open in 0..menus().len() {
        let list = chrome(&frame(opened(open, None)));
        let fill = list.covering_quad(Layer::Overlay, Place::Dropdown).unwrap_or_else(|| {
            panic!("menu {} has no opaque surface", menus()[open].title)
        });
        assert_eq!(fill.fill, Fill::MenuBackground);
    }
}

#[test]
fn the_hovered_row_is_highlighted_only_when_it_can_run() {
    let mut frame = frame(opened(1, Some(0)));
    let row = Quad::new(Place::DropdownRow(0), Fill::MenuHighlight);
    let list = chrome(&frame);
    assert!(list.overlay_quads.contains(&row), "a runnable row is highlighted");

    frame.menu_enabled[0] = false;
    let list = chrome(&frame);
    assert!(!list.overlay_quads.contains(&row), "a disabled row must not look clickable");
}

#[test]
fn the_confirmation_strip_is_an_opaque_overlay_too() {
    let mut frame = frame(MenuState::default());
    frame.prompt = true;
    let list = chrome(&frame);
    list.covering_quad(Layer::Overlay, Place::Prompt).expect("an opaque strip");
    assert_eq!(list.layer_of(Region::Prompt), Some(Layer::Overlay));
}

#[test]
fn the_sidebar_is_a_base_surface_not_an_overlay() {
    let mut frame = frame(MenuState::default());
    frame.sidebar_panel = true;
    frame.sidebar_selected_row = Some(1);
    let list = chrome(&frame);
    assert_eq!(list.layer_of(Region::Sidebar), Some(Layer::Base));
    let fill = list
        .covering_quad(Layer::Base, Place::Sidebar)
        .expect("the sidebar's background must be an opaque base surface");
    assert_eq!(fill.fill, Fill::SidebarBackground);
    assert!(
        list.base_quads.contains(&Quad::new(Place::SidebarRow(1), Fill::SidebarSelected)),
        "the selected row must be highlighted"
    );
    let under = |place| list.covering_quad(Layer::Base, place).map(|quad| quad.fill);
    assert_eq!(under(Place::SidebarRow(1)), Some(Fill::SidebarSelected));
    assert_eq!(under(Place::SidebarRow(2)), Some(Fill::SidebarBackground));
    assert_eq!(under(Place::SidebarEdge), Some(Fill::SidebarBorder));
}

#[test]
fn a_bar_covers_what_is_laid_out_in_it() {
    let list = chrome(&frame(MenuState::default()));
    let under = |place| list.covering_quad(Layer::Base, place).map(|quad| quad.fill);
    assert_eq!(under(Place::Tab(99)), Some(Fill::TabBar));
    assert_eq!(under(Place::MenuTitle(2)), Some(Fill::MenuBackground));
    let mut text = DrawList::new();
    text.push_quad(Layer::Base, Quad::new(Place::Text, Fill::CurrentLine));
    text.push_quad(Layer::Base, Quad::new(Place::TextRow(3), Fill::Selection));
    let row = |row| text.covering_quad(Layer::Base, Place::TextRow(row)).map(|quad| quad.fill);
    assert_eq!((row(2), row(3)), (Some(Fill::CurrentLine), Some(Fill::Selection)));
}

#[test]
fn a_hidden_sidebar_draws_nothing() {
    let list = chrome(&frame(MenuState::default()));
    assert_eq!(list.layer_of(Region::Sidebar), None);
}

#[test]
fn tab_plates_come_from_the_hit_test_geometry() {
    let frame = frame(MenuState::default());
    let list = chrome(&frame);
    for tab in 0..frame.tabs.len() {
        assert!(
            list.base_quads.iter().any(|quad| quad.place == Place::Tab(tab)),
            "tab {tab} is drawn somewhere other than its hit region"
        );
    }
    assert!(list.base_quads.contains(&Quad::new(Place::Tab(0), Fill::TabActive)));
}

#[test]
fn hiding_the_status_bar_removes_its_surface_and_its_text() {
    let mut frame = frame(MenuState::default());
    frame.show_status_bar = false;
    let list = chrome(&frame);
    assert_eq!(list.layer_of(Region::Status), None);
    assert_eq!(list.layer_of(Region::StatusRight), None);
    assert_eq!(list.covering_quad(Layer::Base, Place::StatusBar), None);
}

#[test]
fn the_last_quad_over_a_place_is_the_one_on_top() {
    let mut list = DrawList::new();
    list.push_quad(Layer::Base, Quad::new(Place::Text, Fill::CurrentLine));
    list.push_quad(Layer::Base, Quad::new(Place::Text, Fill::Selection));
    assert_eq!(
        list.covering_quad(Layer::Base, Place::Text),
        Some(Quad::new(Place::Text, Fill::Selection))
    );
    assert_eq!(list.covering_quad(Layer::Overlay, Place::Text), None);
    list.push_text(
        Layer::Overlay,
        TextRegionPlacement { region: Region::Overlay, clip: Place::Text, color: Role::Text },
    );
    assert_eq!(list.layer_of(Region::Overlay), Some(Layer::Overlay));
}

//! Frame composition.
//!
//! A frame is drawn in two passes: base quads, base text, overlay quads,
//! overlay text.  Every surface and every piece of text says which layer it
//! belongs to, so a surface that floats covers what is beneath it, glyphs
//! included.  Where each [`Place`] lies in pixels is the program's business;
//! what is drawn, in which order and in which colour is decided here.

use crate::depgraph::Mark;
use crate::menu::MenuState;
use crate::rich::Role;
use vstd::prelude::*;

verus! {

/// Which pass a piece of the frame is drawn in.
#[derive(Copy, Clone, Debug, PartialEq, Eq, Structural)]
pub enum Layer {
    /// The editor and its chrome.
    Base,
    /// Surfaces that float above the editor and must hide it.
    Overlay,
}

/// A rectangle of the window, by what it is.
#[derive(Copy, Clone, Debug, PartialEq, Eq, Structural)]
pub enum Place {
    MenuBar,
    TabBar,
    Text,
    Gutter,
    StatusBar,
    /// The docked sidebar, the line along its right edge, and the rule under
    /// its header.
    Sidebar,
    SidebarEdge,
    SidebarRule,
    /// A line of the sidebar, and the accent bar at its left.
    SidebarRow(usize),
    SidebarAccent(usize),
    /// A tab, the indicator under it, and the mark at its left.
    Tab(usize),
    TabIndicator(usize),
    TabMark(usize),
    MenuTitle(usize),
    /// The open dropdown, the border around it, and one of its rows.
    Dropdown,
    DropdownBorder,
    DropdownRow(usize),
    /// The confirmation strip and the border around it.
    Prompt,
    PromptBorder,
    /// The diagnostics panel and the border around it.
    Panel,
    PanelBorder,
    /// A whole row of the text area.
    TextRow(usize),
    /// The glyphs of a row from one byte of its text to another.
    Glyphs { row: usize, start: usize, end: usize },
    /// Half a cell after the end of a row.
    LineBreak(usize),
    /// A bar before the glyph at this byte of a row.
    Caret { row: usize, byte: usize },
    ScrollTrack,
    ScrollThumb,
    /// The settings screen's search box, section list, and list.
    SettingsSearch,
    SettingsCategories,
    SettingsList,
    /// A row of the section list.
    SettingsSection(usize),
    /// The control of a listed setting, and the dot in a switch.
    Control(usize),
    ControlDot(usize),
    /// One of the choices of a listed setting.
    Choice(usize, usize),
    Reset(usize),
    /// A stroke, a ring or a circle of the dependency graph.
    GraphMark(Mark),
}

/// The fill of a surface. The theme says which colour that is.
#[derive(Copy, Clone, Debug, PartialEq, Eq, Structural)]
pub enum Fill {
    MenuBackground,
    MenuBorder,
    MenuHighlight,
    TabBar,
    TabActive,
    TabInactive,
    DirtyMarker,
    GutterBackground,
    StatusBar,
    SidebarBackground,
    SidebarBorder,
    SidebarHover,
    SidebarSelected,
    Cursor,
    OverlayBackground,
    OverlayBorder,
    CurrentLine,
    SearchMatch,
    Selection,
    Scrollbar,
    /// An edge of the dependency graph, and one that is lit.
    GraphEdge,
    GraphTraced,
    /// A file that another imports, and one that nothing does.
    GraphFile,
    GraphEntry,
}

/// A filled rectangle.
#[derive(Copy, Clone, Debug, PartialEq, Eq, Structural)]
pub struct Quad {
    pub place: Place,
    pub fill: Fill,
}

/// A shaped piece of text that is placed as a whole.
#[derive(Copy, Clone, Debug, PartialEq, Eq, Structural)]
pub enum Region {
    Editor,
    Gutter,
    Tabs,
    Menu,
    MenuDropdown,
    MenuDropdownDisabled,
    Prompt,
    Status,
    StatusRight,
    Overlay,
    Sidebar,
    DependencyGraph,
    SettingsSearch,
    SettingsCategories,
    SettingsList,
}

/// A region's text, clipped to a place.
#[derive(Copy, Clone, Debug, PartialEq, Eq, Structural)]
pub struct TextRegionPlacement {
    pub region: Region,
    pub clip: Place,
    pub color: Role,
}

/// A filled place.
pub open spec fn quad(place: Place, fill: Fill) -> Quad {
    Quad { place, fill }
}

/// A placed region.
pub open spec fn text(region: Region, clip: Place, color: Role) -> TextRegionPlacement {
    TextRegionPlacement { region, clip, color }
}

impl Quad {
    /// A filled place.
    pub fn new(place: Place, fill: Fill) -> (r: Self)
        ensures
            r == quad(place, fill),
    {
        Quad { place, fill }
    }
}

/// One frame's rectangles and text placements, split by layer.
#[derive(Clone, Debug)]
pub struct DrawList {
    pub base_quads: Vec<Quad>,
    pub overlay_quads: Vec<Quad>,
    pub base_text: Vec<TextRegionPlacement>,
    pub overlay_text: Vec<TextRegionPlacement>,
}

/// A draw list in contracts.
#[verifier::ext_equal]
pub struct Drawn {
    pub base_quads: Seq<Quad>,
    pub overlay_quads: Seq<Quad>,
    pub base_text: Seq<TextRegionPlacement>,
    pub overlay_text: Seq<TextRegionPlacement>,
}

impl View for DrawList {
    type V = Drawn;

    open spec fn view(&self) -> Drawn {
        Drawn {
            base_quads: self.base_quads@,
            overlay_quads: self.overlay_quads@,
            base_text: self.base_text@,
            overlay_text: self.overlay_text@,
        }
    }
}

/// An empty frame.
pub open spec fn blank() -> Drawn {
    Drawn {
        base_quads: Seq::empty(),
        overlay_quads: Seq::empty(),
        base_text: Seq::empty(),
        overlay_text: Seq::empty(),
    }
}

/// The quads of a layer.
pub open spec fn quads_of(d: Drawn, layer: Layer) -> Seq<Quad> {
    match layer {
        Layer::Base => d.base_quads,
        Layer::Overlay => d.overlay_quads,
    }
}

/// Whether a region is among placements.
pub open spec fn places(all: Seq<TextRegionPlacement>, region: Region) -> bool {
    exists|i: int| 0 <= i < all.len() && (#[trigger] all[i]).region == region
}

/// Which layer a region's text is drawn in.
pub open spec fn layer_shown(d: Drawn, region: Region) -> Option<Layer> {
    if places(d.overlay_text, region) {
        Some(Layer::Overlay)
    } else if places(d.base_text, region) {
        Some(Layer::Base)
    } else {
        None
    }
}

/// Whether one place covers another completely: itself, what it borders, and
/// what is laid out inside it, as the rows of a panel and the tabs of the bar.
pub open spec fn covers(outer: Place, inner: Place) -> bool {
    outer == inner || match (outer, inner) {
        (Place::DropdownBorder, Place::Dropdown) => true,
        (Place::DropdownBorder, Place::DropdownRow(_)) => true,
        (Place::Dropdown, Place::DropdownRow(_)) => true,
        (Place::PromptBorder, Place::Prompt) => true,
        (Place::PanelBorder, Place::Panel) => true,
        (Place::Sidebar, Place::SidebarRule) => true,
        (Place::Sidebar, Place::SidebarRow(_)) => true,
        (Place::Sidebar, Place::SidebarAccent(_)) => true,
        (Place::SidebarRow(row), Place::SidebarAccent(at)) => row == at,
        (Place::TabBar, Place::Tab(_)) => true,
        (Place::TabBar, Place::TabIndicator(_)) => true,
        (Place::TabBar, Place::TabMark(_)) => true,
        (Place::Tab(tab), Place::TabIndicator(at)) => tab == at,
        (Place::Tab(tab), Place::TabMark(at)) => tab == at,
        (Place::MenuBar, Place::MenuTitle(_)) => true,
        (Place::Text, Place::TextRow(_)) => true,
        _ => false,
    }
}

/// The last of the quads that covers a place.
pub open spec fn topmost(quads: Seq<Quad>, place: Place) -> Option<Quad>
    decreases quads.len(),
{
    if quads.len() == 0 {
        None
    } else if covers(quads.last().place, place) {
        Some(quads.last())
    } else {
        topmost(quads.drop_last(), place)
    }
}

fn place_covers(outer: Place, inner: Place) -> (r: bool)
    ensures
        r == covers(outer, inner),
{
    if outer == inner {
        return true;
    }
    match (outer, inner) {
        (Place::DropdownBorder, Place::Dropdown) => true,
        (Place::DropdownBorder, Place::DropdownRow(_)) => true,
        (Place::Dropdown, Place::DropdownRow(_)) => true,
        (Place::PromptBorder, Place::Prompt) => true,
        (Place::PanelBorder, Place::Panel) => true,
        (Place::Sidebar, Place::SidebarRule) => true,
        (Place::Sidebar, Place::SidebarRow(_)) => true,
        (Place::Sidebar, Place::SidebarAccent(_)) => true,
        (Place::SidebarRow(row), Place::SidebarAccent(at)) => row == at,
        (Place::TabBar, Place::Tab(_)) => true,
        (Place::TabBar, Place::TabIndicator(_)) => true,
        (Place::TabBar, Place::TabMark(_)) => true,
        (Place::Tab(tab), Place::TabIndicator(at)) => tab == at,
        (Place::Tab(tab), Place::TabMark(at)) => tab == at,
        (Place::MenuBar, Place::MenuTitle(_)) => true,
        (Place::Text, Place::TextRow(_)) => true,
        _ => false,
    }
}

fn has_region(all: &Vec<TextRegionPlacement>, region: Region) -> (r: bool)
    ensures
        r == places(all@, region),
{
    for i in 0..all.len()
        invariant
            forall|j: int| 0 <= j < i ==> (#[trigger] all@[j]).region != region,
    {
        if all[i].region == region {
            return true;
        }
    }
    false
}

impl DrawList {
    /// An empty frame.
    pub fn new() -> (r: Self)
        ensures
            r@ == blank(),
    {
        let r = DrawList {
            base_quads: Vec::new(),
            overlay_quads: Vec::new(),
            base_text: Vec::new(),
            overlay_text: Vec::new(),
        };
        assert(r@ =~= blank());
        r
    }

    /// Adds a quad on top of its layer.
    pub fn push_quad(&mut self, layer: Layer, quad: Quad)
        ensures
            final(self)@ == (match layer {
                Layer::Base => Drawn {
                    base_quads: old(self)@.base_quads.push(quad),
                    ..old(self)@
                },
                Layer::Overlay => Drawn {
                    overlay_quads: old(self)@.overlay_quads.push(quad),
                    ..old(self)@
                },
            }),
    {
        match layer {
            Layer::Base => self.base_quads.push(quad),
            Layer::Overlay => self.overlay_quads.push(quad),
        }
    }

    /// Adds a region's text to its layer.
    pub fn push_text(&mut self, layer: Layer, placement: TextRegionPlacement)
        ensures
            final(self)@ == (match layer {
                Layer::Base => Drawn {
                    base_text: old(self)@.base_text.push(placement),
                    ..old(self)@
                },
                Layer::Overlay => Drawn {
                    overlay_text: old(self)@.overlay_text.push(placement),
                    ..old(self)@
                },
            }),
    {
        match layer {
            Layer::Base => self.base_text.push(placement),
            Layer::Overlay => self.overlay_text.push(placement),
        }
    }

    /// Which layer a region's text is drawn in, or `None` if it is not drawn.
    pub fn layer_of(&self, region: Region) -> (r: Option<Layer>)
        ensures
            r == layer_shown(self@, region),
    {
        if has_region(&self.overlay_text, region) {
            Some(Layer::Overlay)
        } else if has_region(&self.base_text, region) {
            Some(Layer::Base)
        } else {
            None
        }
    }

    /// The topmost quad in `layer` that covers `place` completely. The last one
    /// wins, because within a layer quads are drawn in order.
    pub fn covering_quad(&self, layer: Layer, place: Place) -> (r: Option<Quad>)
        ensures
            r == topmost(quads_of(self@, layer), place),
    {
        let quads = match layer {
            Layer::Base => &self.base_quads,
            Layer::Overlay => &self.overlay_quads,
        };
        let mut n: usize = quads.len();
        assert(quads@.take(n as int) =~= quads@);
        while n > 0
            invariant
                n <= quads.len(),
                quads@ == quads_of(self@, layer),
                topmost(quads@.take(n as int), place) == topmost(quads@, place),
            decreases n,
        {
            assert(quads@.take(n as int).drop_last() =~= quads@.take(n - 1));
            if place_covers(quads[n - 1].place, place) {
                return Some(quads[n - 1]);
            }
            n = n - 1;
        }
        None
    }
}

/// A tab's plate.
#[derive(Copy, Clone, Debug, PartialEq, Eq, Structural)]
pub struct TabPlate {
    pub active: bool,
    pub dirty: bool,
}

/// Everything the chrome needs to lay itself out.
#[derive(Clone, Debug)]
pub struct Chrome {
    pub show_status_bar: bool,
    pub tabs: Vec<TabPlate>,
    pub menu: MenuState,
    /// How many titles the menu bar has.
    pub titles: usize,
    /// Whether a dropdown is laid out, and how many rows it has.
    pub dropdown: bool,
    pub rows: usize,
    /// Per-row enablement for the open menu, from the command registry.
    pub menu_enabled: Vec<bool>,
    pub status_color: Role,
    /// Whether a confirmation strip is up.
    pub prompt: bool,
    /// Whether the diagnostics panel is shown.
    pub overlay_panel: bool,
    /// Whether the docked sidebar is shown.
    pub sidebar_panel: bool,
    /// Which line of the sidebar is selected.
    pub sidebar_selected_row: Option<usize>,
    /// Which line of the sidebar the pointer is over.
    pub sidebar_hovered_row: Option<usize>,
}

/// The window's own furniture.
pub open spec fn furniture(c: Chrome) -> Seq<Quad> {
    seq![
        quad(Place::MenuBar, Fill::MenuBackground),
        quad(Place::TabBar, Fill::TabBar),
        quad(Place::Gutter, Fill::GutterBackground),
    ] + (if c.show_status_bar {
        seq![quad(Place::StatusBar, Fill::StatusBar)]
    } else {
        Seq::empty()
    })
}

/// The highlight under the pointer; never on the line that is selected.
pub open spec fn hover_quads(c: Chrome) -> Seq<Quad> {
    match c.sidebar_hovered_row {
        Some(row) => if c.sidebar_selected_row != Some(row) {
            seq![quad(Place::SidebarRow(row), Fill::SidebarHover)]
        } else {
            Seq::empty()
        },
        None => Seq::empty(),
    }
}

/// The highlight of the selected line, with its accent bar.
pub open spec fn selected_quads(c: Chrome) -> Seq<Quad> {
    match c.sidebar_selected_row {
        Some(row) => seq![
            quad(Place::SidebarRow(row), Fill::SidebarSelected),
            quad(Place::SidebarAccent(row), Fill::Cursor),
        ],
        None => Seq::empty(),
    }
}

/// The sidebar.
pub open spec fn sidebar_quads(c: Chrome) -> Seq<Quad> {
    if c.sidebar_panel {
        seq![
            quad(Place::Sidebar, Fill::SidebarBackground),
            quad(Place::SidebarEdge, Fill::SidebarBorder),
            quad(Place::SidebarRule, Fill::SidebarBorder),
        ] + hover_quads(c) + selected_quads(c)
    } else {
        Seq::empty()
    }
}

/// One tab.
pub open spec fn tab_quads(tab: TabPlate, index: int) -> Seq<Quad> {
    let at = index as usize;
    seq![
        quad(
            Place::Tab(at),
            if tab.active {
                Fill::TabActive
            } else {
                Fill::TabInactive
            },
        ),
    ] + (if tab.active {
        seq![quad(Place::TabIndicator(at), Fill::Cursor)]
    } else {
        Seq::empty()
    }) + (if tab.dirty {
        seq![quad(Place::TabMark(at), Fill::DirtyMarker)]
    } else {
        Seq::empty()
    })
}

/// The first `n` tabs.
pub open spec fn tabs_quads(tabs: Seq<TabPlate>, n: int) -> Seq<Quad>
    decreases n,
{
    if n <= 0 {
        Seq::empty()
    } else {
        tabs_quads(tabs, n - 1) + tab_quads(tabs[n - 1], n - 1)
    }
}

/// The title of the open menu.
pub open spec fn title_quads(c: Chrome) -> Seq<Quad> {
    match c.menu.open {
        Some(open) => if open < c.titles {
            seq![quad(Place::MenuTitle(open), Fill::MenuHighlight)]
        } else {
            Seq::empty()
        },
        None => Seq::empty(),
    }
}

/// A bordered, filled surface: border first, fill on top.
pub open spec fn panel_quads(border: Place, place: Place, fill: Fill, line: Fill) -> Seq<Quad> {
    seq![quad(border, line), quad(place, fill)]
}

/// Whether a row of the dropdown would run.
pub open spec fn runnable(c: Chrome, row: usize) -> bool {
    row >= c.menu_enabled@.len() || c.menu_enabled@[row as int]
}

/// The highlight in the dropdown: only on a row the registry would run.
pub open spec fn row_quads(c: Chrome) -> Seq<Quad> {
    match c.menu.hovered_item {
        Some(row) => if runnable(c, row) && row < c.rows {
            seq![quad(Place::DropdownRow(row), Fill::MenuHighlight)]
        } else {
            Seq::empty()
        },
        None => Seq::empty(),
    }
}

/// The chrome of one frame.
pub open spec fn composed(c: Chrome) -> Drawn {
    Drawn {
        base_quads: furniture(c) + sidebar_quads(c) + tabs_quads(c.tabs@, c.tabs@.len() as int)
            + title_quads(c),
        base_text: (if c.sidebar_panel {
            seq![text(Region::Sidebar, Place::Sidebar, Role::Text)]
        } else {
            Seq::empty()
        }) + seq![
            text(Region::Tabs, Place::TabBar, Role::TabText),
            text(Region::Menu, Place::MenuBar, Role::StatusText),
        ] + (if c.show_status_bar {
            seq![
                text(Region::Status, Place::StatusBar, c.status_color),
                text(Region::StatusRight, Place::StatusBar, Role::DimText),
            ]
        } else {
            Seq::empty()
        }),
        overlay_quads: (if c.dropdown {
            panel_quads(
                Place::DropdownBorder,
                Place::Dropdown,
                Fill::MenuBackground,
                Fill::MenuBorder,
            ) + row_quads(c)
        } else {
            Seq::empty()
        }) + (if c.prompt {
            panel_quads(
                Place::PromptBorder,
                Place::Prompt,
                Fill::MenuBackground,
                Fill::DirtyMarker,
            )
        } else {
            Seq::empty()
        }) + (if c.overlay_panel {
            panel_quads(
                Place::PanelBorder,
                Place::Panel,
                Fill::OverlayBackground,
                Fill::OverlayBorder,
            )
        } else {
            Seq::empty()
        }),
        overlay_text: (if c.dropdown {
            seq![
                text(Region::MenuDropdown, Place::Dropdown, Role::Text),
                text(Region::MenuDropdownDisabled, Place::Dropdown, Role::DimText),
            ]
        } else {
            Seq::empty()
        }) + (if c.prompt {
            seq![text(Region::Prompt, Place::Prompt, Role::Text)]
        } else {
            Seq::empty()
        }) + (if c.overlay_panel {
            seq![text(Region::Overlay, Place::Panel, Role::DimText)]
        } else {
            Seq::empty()
        }),
    }
}

/// A placed region.
fn placed(region: Region, clip: Place, color: Role) -> (r: TextRegionPlacement)
    ensures
        r == text(region, clip, color),
{
    TextRegionPlacement { region, clip, color }
}

/// A bordered, filled surface: border first, fill on top, both in the overlay
/// layer so the pair is drawn after the editor's glyphs.
fn push_panel(list: &mut DrawList, border: Place, place: Place, fill: Fill, line: Fill)
    ensures
        final(list)@ == (Drawn {
            overlay_quads: old(list)@.overlay_quads + panel_quads(border, place, fill, line),
            ..old(list)@
        }),
{
    list.push_quad(Layer::Overlay, Quad::new(border, line));
    list.push_quad(Layer::Overlay, Quad::new(place, fill));
    assert(list@.overlay_quads =~= old(list)@.overlay_quads + panel_quads(
        border,
        place,
        fill,
        line,
    ));
}

fn push_sidebar(list: &mut DrawList, input: &Chrome)
    requires
        input.sidebar_panel,
    ensures
        final(list)@ == (Drawn {
            base_quads: old(list)@.base_quads + sidebar_quads(*input),
            base_text: old(list)@.base_text.push(
                text(Region::Sidebar, Place::Sidebar, Role::Text),
            ),
            ..old(list)@
        }),
{
    list.push_quad(Layer::Base, Quad::new(Place::Sidebar, Fill::SidebarBackground));
    list.push_quad(Layer::Base, Quad::new(Place::SidebarEdge, Fill::SidebarBorder));
    list.push_quad(Layer::Base, Quad::new(Place::SidebarRule, Fill::SidebarBorder));
    if let Some(row) = input.sidebar_hovered_row {
        let selected = match input.sidebar_selected_row {
            Some(chosen) => chosen == row,
            None => false,
        };
        if !selected {
            list.push_quad(Layer::Base, Quad::new(Place::SidebarRow(row), Fill::SidebarHover));
        }
    }
    if let Some(row) = input.sidebar_selected_row {
        list.push_quad(Layer::Base, Quad::new(Place::SidebarRow(row), Fill::SidebarSelected));
        list.push_quad(Layer::Base, Quad::new(Place::SidebarAccent(row), Fill::Cursor));
    }
    list.push_text(Layer::Base, placed(Region::Sidebar, Place::Sidebar, Role::Text));
    assert(list@.base_quads =~= old(list)@.base_quads + sidebar_quads(*input));
}

fn push_tabs(list: &mut DrawList, tabs: &Vec<TabPlate>)
    ensures
        final(list)@ == (Drawn {
            base_quads: old(list)@.base_quads + tabs_quads(tabs@, tabs@.len() as int),
            ..old(list)@
        }),
{
    let ghost before = list@.base_quads;
    assert(before =~= before + tabs_quads(tabs@, 0));
    for i in 0..tabs.len()
        invariant
            list@ == (Drawn { base_quads: before + tabs_quads(tabs@, i as int), ..old(list)@ }),
    {
        let tab = tabs[i];
        list.push_quad(
            Layer::Base,
            Quad::new(
                Place::Tab(i),
                if tab.active {
                    Fill::TabActive
                } else {
                    Fill::TabInactive
                },
            ),
        );
        if tab.active {
            list.push_quad(Layer::Base, Quad::new(Place::TabIndicator(i), Fill::Cursor));
        }
        if tab.dirty {
            list.push_quad(Layer::Base, Quad::new(Place::TabMark(i), Fill::DirtyMarker));
        }
        assert(list@.base_quads =~= before + tabs_quads(tabs@, i + 1));
    }
}

fn push_overlays(list: &mut DrawList, input: &Chrome)
    requires
        old(list)@.overlay_quads.len() == 0,
        old(list)@.overlay_text.len() == 0,
    ensures
        final(list)@ == (Drawn {
            overlay_quads: composed(*input).overlay_quads,
            overlay_text: composed(*input).overlay_text,
            ..old(list)@
        }),
{
    if input.dropdown {
        push_panel(
            list,
            Place::DropdownBorder,
            Place::Dropdown,
            Fill::MenuBackground,
            Fill::MenuBorder,
        );
        if let Some(row) = input.menu.hovered_item {
            let runs = if row < input.menu_enabled.len() {
                input.menu_enabled[row]
            } else {
                true
            };
            if runs && row < input.rows {
                list.push_quad(
                    Layer::Overlay,
                    Quad::new(Place::DropdownRow(row), Fill::MenuHighlight),
                );
            }
        }
        list.push_text(Layer::Overlay, placed(Region::MenuDropdown, Place::Dropdown, Role::Text));
        list.push_text(
            Layer::Overlay,
            placed(Region::MenuDropdownDisabled, Place::Dropdown, Role::DimText),
        );
    }
    if input.prompt {
        push_panel(
            list,
            Place::PromptBorder,
            Place::Prompt,
            Fill::MenuBackground,
            Fill::DirtyMarker,
        );
        list.push_text(Layer::Overlay, placed(Region::Prompt, Place::Prompt, Role::Text));
    }
    if input.overlay_panel {
        push_panel(
            list,
            Place::PanelBorder,
            Place::Panel,
            Fill::OverlayBackground,
            Fill::OverlayBorder,
        );
        list.push_text(Layer::Overlay, placed(Region::Overlay, Place::Panel, Role::DimText));
    }
    assert(list@.overlay_quads =~= composed(*input).overlay_quads);
    assert(list@.overlay_text =~= composed(*input).overlay_text);
}

/// Builds the chrome for one frame. The editor's own text, selection and caret
/// are added afterwards; they all belong to [`Layer::Base`].
pub fn chrome(input: &Chrome) -> (r: DrawList)
    ensures
        r@ == composed(*input),
{
    let mut list = DrawList::new();
    list.push_quad(Layer::Base, Quad::new(Place::MenuBar, Fill::MenuBackground));
    list.push_quad(Layer::Base, Quad::new(Place::TabBar, Fill::TabBar));
    list.push_quad(Layer::Base, Quad::new(Place::Gutter, Fill::GutterBackground));
    if input.show_status_bar {
        list.push_quad(Layer::Base, Quad::new(Place::StatusBar, Fill::StatusBar));
    }
    assert(list@.base_quads =~= furniture(*input));
    if input.sidebar_panel {
        push_sidebar(&mut list, input);
    }
    assert(list@.base_quads =~= furniture(*input) + sidebar_quads(*input));
    push_tabs(&mut list, &input.tabs);
    list.push_text(Layer::Base, placed(Region::Tabs, Place::TabBar, Role::TabText));
    if let Some(open) = input.menu.open {
        if open < input.titles {
            list.push_quad(Layer::Base, Quad::new(Place::MenuTitle(open), Fill::MenuHighlight));
        }
    }
    list.push_text(Layer::Base, placed(Region::Menu, Place::MenuBar, Role::StatusText));
    if input.show_status_bar {
        list.push_text(
            Layer::Base,
            placed(Region::Status, Place::StatusBar, input.status_color),
        );
        list.push_text(
            Layer::Base,
            placed(Region::StatusRight, Place::StatusBar, Role::DimText),
        );
    }
    assert(list@.base_quads =~= composed(*input).base_quads);
    assert(list@.base_text =~= composed(*input).base_text);
    push_overlays(&mut list, input);
    assert(list@ =~= composed(*input));
    list
}

// --- laws --------------------------------------------------------------------

/// Everything that floats is drawn in the overlay layer and nowhere else: no
/// glyph of the base layer can end up over it.
pub proof fn floating_text_is_never_in_the_base_layer(c: Chrome, i: int)
    requires
        0 <= i < composed(c).base_text.len(),
    ensures
        ({
            let region = composed(c).base_text[i].region;
            &&& region != Region::MenuDropdown
            &&& region != Region::MenuDropdownDisabled
            &&& region != Region::Prompt
            &&& region != Region::Overlay
        }),
{
}

/// Nothing docked is ever drawn over the editor: the overlay layer holds only
/// what floats.
pub proof fn docked_text_is_never_in_the_overlay_layer(c: Chrome, i: int)
    requires
        0 <= i < composed(c).overlay_text.len(),
    ensures
        ({
            let region = composed(c).overlay_text[i].region;
            ||| region == Region::MenuDropdown
            ||| region == Region::MenuDropdownDisabled
            ||| region == Region::Prompt
            ||| region == Region::Overlay
        }),
{
}

/// With no dropdown, no confirmation and no panel, nothing floats.
pub proof fn nothing_floats_unless_asked(c: Chrome)
    requires
        !c.dropdown,
        !c.prompt,
        !c.overlay_panel,
    ensures
        composed(c).overlay_quads.len() == 0,
        composed(c).overlay_text.len() == 0,
{
}

proof fn topmost_of_both(a: Seq<Quad>, b: Seq<Quad>, place: Place)
    ensures
        topmost(a + b, place) == (if topmost(b, place) is Some {
            topmost(b, place)
        } else {
            topmost(a, place)
        }),
    decreases b.len(),
{
    if b.len() == 0 {
        assert(a + b =~= a);
    } else {
        assert((a + b).drop_last() =~= a + b.drop_last());
        assert((a + b).last() == b.last());
        topmost_of_both(a, b.drop_last(), place);
    }
}

proof fn topmost_of_two(first: Quad, second: Quad, place: Place)
    ensures
        topmost(seq![first, second], place) == (if covers(second.place, place) {
            Some(second)
        } else if covers(first.place, place) {
            Some(first)
        } else {
            None
        }),
{
    let both = seq![first, second];
    reveal_with_fuel(topmost, 3);
    assert(both.drop_last() =~= seq![first]);
    assert(both.drop_last().drop_last() =~= Seq::<Quad>::empty());
}

/// Every surface that floats is filled with its own background, over whatever
/// is beneath it: an open dropdown, a confirmation and the panel are never
/// seen through.
pub proof fn what_floats_is_filled(c: Chrome)
    ensures
        c.dropdown ==> topmost(composed(c).overlay_quads, Place::Dropdown) == Some(
            quad(Place::Dropdown, Fill::MenuBackground),
        ),
        c.prompt ==> topmost(composed(c).overlay_quads, Place::Prompt) == Some(
            quad(Place::Prompt, Fill::MenuBackground),
        ),
        c.overlay_panel ==> topmost(composed(c).overlay_quads, Place::Panel) == Some(
            quad(Place::Panel, Fill::OverlayBackground),
        ),
{
    let dropdown = panel_quads(
        Place::DropdownBorder,
        Place::Dropdown,
        Fill::MenuBackground,
        Fill::MenuBorder,
    );
    let first = if c.dropdown {
        dropdown + row_quads(c)
    } else {
        Seq::empty()
    };
    let second = if c.prompt {
        panel_quads(Place::PromptBorder, Place::Prompt, Fill::MenuBackground, Fill::DirtyMarker)
    } else {
        Seq::empty()
    };
    let third = if c.overlay_panel {
        panel_quads(Place::PanelBorder, Place::Panel, Fill::OverlayBackground, Fill::OverlayBorder)
    } else {
        Seq::empty()
    };
    assert(composed(c).overlay_quads =~= first + second + third);
    assert forall|place: Place| #[trigger]
        topmost(composed(c).overlay_quads, place) == (if topmost(third, place) is Some {
            topmost(third, place)
        } else if topmost(second, place) is Some {
            topmost(second, place)
        } else {
            topmost(first, place)
        }) by {
        topmost_of_both(first + second, third, place);
        topmost_of_both(first, second, place);
    }
    assert forall|place: Place|
        #![trigger topmost(composed(c).overlay_quads, place)]
        place == Place::Dropdown || place == Place::Prompt || place == Place::Panel implies {
        &&& c.overlay_panel ==> topmost(third, place) == (if place == Place::Panel {
            Some(third[1])
        } else {
            None
        })
        &&& c.prompt ==> topmost(second, place) == (if place == Place::Prompt {
            Some(second[1])
        } else {
            None
        })
    } by {
        if c.overlay_panel {
            topmost_of_two(third[0], third[1], place);
            assert(third =~= seq![third[0], third[1]]);
        }
        if c.prompt {
            topmost_of_two(second[0], second[1], place);
            assert(second =~= seq![second[0], second[1]]);
        }
    }
    if c.dropdown {
        topmost_of_both(dropdown, row_quads(c), Place::Dropdown);
        topmost_of_two(dropdown[0], dropdown[1], Place::Dropdown);
        assert(dropdown =~= seq![dropdown[0], dropdown[1]]);
        let rows = row_quads(c);
        reveal_with_fuel(topmost, 2);
        if rows.len() > 0 {
            assert(rows.last().place is DropdownRow);
            assert(rows.drop_last().len() == 0);
        }
        assert(topmost(rows, Place::Dropdown) is None);
    }
}

/// The row under the pointer is highlighted only when it would run.
pub proof fn a_row_that_cannot_run_is_not_highlighted(c: Chrome, row: usize)
    requires
        c.menu.hovered_item == Some(row),
        !runnable(c, row),
    ensures
        row_quads(c).len() == 0,
{
}

/// A hidden sidebar and a hidden status bar draw nothing at all.
pub proof fn what_is_hidden_draws_nothing(c: Chrome)
    ensures
        !c.sidebar_panel ==> sidebar_quads(c).len() == 0 && !places(
            composed(c).base_text,
            Region::Sidebar,
        ),
        !c.show_status_bar ==> !places(composed(c).base_text, Region::Status) && !places(
            composed(c).base_text,
            Region::StatusRight,
        ),
{
}

proof fn plate_of(tabs: Seq<TabPlate>, n: int, at: int)
    requires
        0 <= at < n <= tabs.len(),
    ensures
        tabs_quads(tabs, n).contains(tab_quads(tabs[at], at)[0]),
    decreases n,
{
    let before = tabs_quads(tabs, n - 1);
    let last = tab_quads(tabs[n - 1], n - 1);
    let plate = tab_quads(tabs[at], at)[0];
    if at == n - 1 {
        assert((before + last)[before.len() as int] == plate);
    } else {
        plate_of(tabs, n - 1, at);
        let k = choose|k: int| 0 <= k < before.len() && before[k] == plate;
        assert((before + last)[k] == plate);
    }
}

/// Every tab has its plate in its own rectangle, the one a click is tested
/// against.
pub proof fn every_tab_has_its_plate(c: Chrome, at: int)
    requires
        0 <= at < c.tabs@.len(),
    ensures
        composed(c).base_quads.contains(
            quad(
                Place::Tab(at as usize),
                if c.tabs@[at].active {
                    Fill::TabActive
                } else {
                    Fill::TabInactive
                },
            ),
        ),
{
    let tabs = tabs_quads(c.tabs@, c.tabs@.len() as int);
    plate_of(c.tabs@, c.tabs@.len() as int, at);
    let plate = tab_quads(c.tabs@[at], at)[0];
    let k = choose|k: int| 0 <= k < tabs.len() && tabs[k] == plate;
    let lead = furniture(c) + sidebar_quads(c);
    assert((lead + tabs + title_quads(c))[lead.len() + k] == plate);
    assert(composed(c).base_quads[lead.len() + k] == plate);
}

/// Every quad of the first `n` tabs belongs to one of them and tells what is
/// true of it.
pub open spec fn tells_of_a_tab(quad: Quad, tabs: Seq<TabPlate>, n: int) -> bool {
    match quad.place {
        Place::Tab(at) => at < n && quad.fill == (if tabs[at as int].active {
            Fill::TabActive
        } else {
            Fill::TabInactive
        }),
        Place::TabIndicator(at) => at < n && tabs[at as int].active && quad.fill == Fill::Cursor,
        Place::TabMark(at) => at < n && tabs[at as int].dirty && quad.fill == Fill::DirtyMarker,
        _ => false,
    }
}

proof fn tabs_tell_of_tabs(tabs: Seq<TabPlate>, n: int)
    requires
        0 <= n <= tabs.len(),
        tabs.len() <= usize::MAX,
    ensures
        forall|k: int|
            0 <= k < tabs_quads(tabs, n).len() ==> tells_of_a_tab(
                #[trigger] tabs_quads(tabs, n)[k],
                tabs,
                n,
            ),
    decreases n,
{
    if n > 0 {
        tabs_tell_of_tabs(tabs, n - 1);
        let before = tabs_quads(tabs, n - 1);
        let last = tab_quads(tabs[n - 1], n - 1);
        let all = tabs_quads(tabs, n);
        assert forall|k: int| 0 <= k < all.len() implies tells_of_a_tab(
            #[trigger] all[k],
            tabs,
            n,
        ) by {
            if k < before.len() {
                assert(all[k] == before[k]);
            } else {
                assert(all[k] == last[k - before.len()]);
            }
        }
    }
}

proof fn marks_of(tabs: Seq<TabPlate>, n: int, at: int)
    requires
        0 <= at < n <= tabs.len(),
        tabs.len() <= usize::MAX,
    ensures
        tabs[at].active ==> tabs_quads(tabs, n).contains(
            (Quad { place: Place::TabIndicator(at as usize), fill: Fill::Cursor }),
        ),
        tabs[at].dirty ==> tabs_quads(tabs, n).contains(
            (Quad { place: Place::TabMark(at as usize), fill: Fill::DirtyMarker }),
        ),
    decreases n,
{
    let before = tabs_quads(tabs, n - 1);
    let last = tab_quads(tabs[n - 1], n - 1);
    let indicator = Quad { place: Place::TabIndicator(at as usize), fill: Fill::Cursor };
    let mark = Quad { place: Place::TabMark(at as usize), fill: Fill::DirtyMarker };
    if at == n - 1 {
        if tabs[at].active {
            assert(last[1] == indicator);
            assert((before + last)[(before.len() + 1) as int] == indicator);
        }
        if tabs[at].dirty {
            let k: int = if tabs[at].active {
                2
            } else {
                1
            };
            assert(last[k] == mark);
            assert((before + last)[before.len() + k] == mark);
        }
    } else {
        marks_of(tabs, n - 1, at);
        if tabs[at].active {
            let k = choose|k: int| 0 <= k < before.len() && before[k] == indicator;
            assert((before + last)[k] == indicator);
        }
        if tabs[at].dirty {
            let k = choose|k: int| 0 <= k < before.len() && before[k] == mark;
            assert((before + last)[k] == mark);
        }
    }
}

/// Where a quad of the chrome's base comes from.
proof fn parts_of_the_base(c: Chrome, k: int)
    requires
        0 <= k < composed(c).base_quads.len(),
    ensures
        ({
            let q = composed(c).base_quads[k];
            let tabs = tabs_quads(c.tabs@, c.tabs@.len() as int);
            ||| furniture(c).contains(q)
            ||| sidebar_quads(c).contains(q)
            ||| tabs.contains(q)
            ||| title_quads(c).contains(q)
        }),
{
    let a = furniture(c);
    let b = sidebar_quads(c);
    let t = tabs_quads(c.tabs@, c.tabs@.len() as int);
    let d = title_quads(c);
    let q = composed(c).base_quads[k];
    if k < a.len() {
        assert(a[k] == q);
    } else if k < a.len() + b.len() {
        assert(b[k - a.len()] == q);
    } else if k < a.len() + b.len() + t.len() {
        assert(t[k - a.len() - b.len()] == q);
    } else {
        assert(d[k - a.len() - b.len() - t.len()] == q);
    }
}

proof fn the_base_holds(c: Chrome, q: Quad)
    requires
        ({
            ||| furniture(c).contains(q)
            ||| sidebar_quads(c).contains(q)
            ||| tabs_quads(c.tabs@, c.tabs@.len() as int).contains(q)
            ||| title_quads(c).contains(q)
        }),
    ensures
        composed(c).base_quads.contains(q),
{
    let a = furniture(c);
    let b = sidebar_quads(c);
    let t = tabs_quads(c.tabs@, c.tabs@.len() as int);
    let d = title_quads(c);
    let all = composed(c).base_quads;
    if a.contains(q) {
        let k = choose|k: int| 0 <= k < a.len() && a[k] == q;
        assert(all[k] == q);
    } else if b.contains(q) {
        let k = choose|k: int| 0 <= k < b.len() && b[k] == q;
        assert(all[a.len() + k] == q);
    } else if t.contains(q) {
        let k = choose|k: int| 0 <= k < t.len() && t[k] == q;
        assert(all[a.len() + b.len() + k] == q);
    } else {
        let k = choose|k: int| 0 <= k < d.len() && d[k] == q;
        assert(all[a.len() + b.len() + t.len() + k] == q);
    }
}

proof fn places_of_the_parts(c: Chrome)
    ensures
        forall|k: int|
            0 <= k < furniture(c).len() ==> {
                let place = (#[trigger] furniture(c)[k]).place;
                place is MenuBar || place is TabBar || place is Gutter || place is StatusBar
            },
        forall|k: int|
            0 <= k < sidebar_quads(c).len() ==> {
                let place = (#[trigger] sidebar_quads(c)[k]).place;
                place is Sidebar || place is SidebarEdge || place is SidebarRule || place
                    is SidebarRow || place is SidebarAccent
            },
        forall|k: int|
            0 <= k < title_quads(c).len() ==> (#[trigger] title_quads(c)[k]).place is MenuTitle,
{
}

/// A quad of the base is told apart by its place.
proof fn a_quad_of_the_base(c: Chrome, q: Quad)
    requires
        c.tabs@.len() <= usize::MAX,
        composed(c).base_quads.contains(q),
    ensures
        q.place is Tab || q.place is TabIndicator || q.place is TabMark ==> tells_of_a_tab(
            q,
            c.tabs@,
            c.tabs@.len() as int,
        ),
        q.place is Sidebar || q.place is SidebarRow || q.place is SidebarAccent ==> sidebar_quads(
            c,
        ).contains(q),
        q.place is StatusBar ==> furniture(c).contains(q),
        q.place is MenuTitle ==> title_quads(c).contains(q),
{
    let all = composed(c).base_quads;
    parts_of_the_base(c, choose|k: int| 0 <= k < all.len() && all[k] == q);
    tabs_tell_of_tabs(c.tabs@, c.tabs@.len() as int);
    places_of_the_parts(c);
    let a = furniture(c);
    let b = sidebar_quads(c);
    let t = tabs_quads(c.tabs@, c.tabs@.len() as int);
    let d = title_quads(c);
    if a.contains(q) {
        let k = choose|k: int| 0 <= k < a.len() && a[k] == q;
        assert(a[k].place == q.place);
    } else if b.contains(q) {
        let k = choose|k: int| 0 <= k < b.len() && b[k] == q;
        assert(b[k].place == q.place);
    } else if t.contains(q) {
        let k = choose|k: int| 0 <= k < t.len() && t[k] == q;
        assert(tells_of_a_tab(t[k], c.tabs@, c.tabs@.len() as int));
    } else {
        let k = choose|k: int| 0 <= k < d.len() && d[k] == q;
        assert(d[k].place == q.place);
    }
}

/// The tab that is active, and no other, has the indicator under it; the tabs
/// with unsaved edits, and no others, have the mark.
pub proof fn a_tab_is_marked_by_its_state(c: Chrome, at: usize)
    requires
        c.tabs@.len() <= usize::MAX,
    ensures
        composed(c).base_quads.contains(
            (Quad { place: Place::TabIndicator(at), fill: Fill::Cursor }),
        ) <==> at < c.tabs@.len() && c.tabs@[at as int].active,
        composed(c).base_quads.contains(
            (Quad { place: Place::TabMark(at), fill: Fill::DirtyMarker }),
        ) <==> at < c.tabs@.len() && c.tabs@[at as int].dirty,
        composed(c).base_quads.contains(
            (Quad { place: Place::Tab(at), fill: Fill::TabActive }),
        ) <==> at < c.tabs@.len() && c.tabs@[at as int].active,
{
    let n = c.tabs@.len() as int;
    let indicator = Quad { place: Place::TabIndicator(at), fill: Fill::Cursor };
    let mark = Quad { place: Place::TabMark(at), fill: Fill::DirtyMarker };
    let plate = Quad { place: Place::Tab(at), fill: Fill::TabActive };
    if at < n {
        marks_of(c.tabs@, n, at as int);
        plate_of(c.tabs@, n, at as int);
        if c.tabs@[at as int].active {
            assert(tab_quads(c.tabs@[at as int], at as int)[0] == plate);
            the_base_holds(c, indicator);
            the_base_holds(c, plate);
        }
        if c.tabs@[at as int].dirty {
            the_base_holds(c, mark);
        }
    }
    if composed(c).base_quads.contains(indicator) {
        a_quad_of_the_base(c, indicator);
    }
    if composed(c).base_quads.contains(mark) {
        a_quad_of_the_base(c, mark);
    }
    if composed(c).base_quads.contains(plate) {
        a_quad_of_the_base(c, plate);
    }
}

/// What the sidebar holds of a line.
proof fn lines_of_the_sidebar(c: Chrome, row: usize)
    ensures
        ({
            let all = sidebar_quads(c);
            let selected = c.sidebar_panel && c.sidebar_selected_row == Some(row);
            let hovered = c.sidebar_panel && c.sidebar_hovered_row == Some(row)
                && c.sidebar_selected_row != Some(row);
            &&& selected == all.contains(
                (Quad { place: Place::SidebarRow(row), fill: Fill::SidebarSelected }),
            )
            &&& selected == all.contains(
                (Quad { place: Place::SidebarAccent(row), fill: Fill::Cursor }),
            )
            &&& hovered == all.contains(
                (Quad { place: Place::SidebarRow(row), fill: Fill::SidebarHover }),
            )
            &&& c.sidebar_panel == all.contains(
                (Quad { place: Place::Sidebar, fill: Fill::SidebarBackground }),
            )
        }),
{
    let side = sidebar_quads(c);
    if c.sidebar_panel {
        let h = hover_quads(c).len() as int;
        assert(side[0] == (Quad { place: Place::Sidebar, fill: Fill::SidebarBackground }));
        if c.sidebar_selected_row == Some(row) {
            assert(side[3 + h] == (Quad {
                place: Place::SidebarRow(row),
                fill: Fill::SidebarSelected,
            }));
            assert(side[4 + h] == (Quad { place: Place::SidebarAccent(row), fill: Fill::Cursor }));
        } else if c.sidebar_hovered_row == Some(row) {
            assert(side[3] == (Quad { place: Place::SidebarRow(row), fill: Fill::SidebarHover }));
        }
    }
}

proof fn the_base_is_the_sidebars(c: Chrome, q: Quad)
    requires
        c.tabs@.len() <= usize::MAX,
        q.place is Sidebar || q.place is SidebarRow || q.place is SidebarAccent,
    ensures
        composed(c).base_quads.contains(q) == sidebar_quads(c).contains(q),
{
    if sidebar_quads(c).contains(q) {
        the_base_holds(c, q);
    }
    if composed(c).base_quads.contains(q) {
        a_quad_of_the_base(c, q);
    }
}

/// In a sidebar that is shown the selected line has its highlight and its
/// accent, the line under the pointer has the other highlight unless it is the
/// selected one, and no other line has either.
pub proof fn a_line_is_highlighted_by_its_state(c: Chrome, row: usize)
    requires
        c.tabs@.len() <= usize::MAX,
    ensures
        ({
            let all = composed(c).base_quads;
            let selected = c.sidebar_panel && c.sidebar_selected_row == Some(row);
            let hovered = c.sidebar_panel && c.sidebar_hovered_row == Some(row)
                && c.sidebar_selected_row != Some(row);
            &&& selected == all.contains(
                (Quad { place: Place::SidebarRow(row), fill: Fill::SidebarSelected }),
            )
            &&& selected == all.contains(
                (Quad { place: Place::SidebarAccent(row), fill: Fill::Cursor }),
            )
            &&& hovered == all.contains(
                (Quad { place: Place::SidebarRow(row), fill: Fill::SidebarHover }),
            )
            &&& c.sidebar_panel == all.contains(
                (Quad { place: Place::Sidebar, fill: Fill::SidebarBackground }),
            )
        }),
{
    lines_of_the_sidebar(c, row);
    the_base_is_the_sidebars(
        c,
        Quad { place: Place::SidebarRow(row), fill: Fill::SidebarSelected },
    );
    the_base_is_the_sidebars(c, Quad { place: Place::SidebarAccent(row), fill: Fill::Cursor });
    the_base_is_the_sidebars(c, Quad { place: Place::SidebarRow(row), fill: Fill::SidebarHover });
    the_base_is_the_sidebars(c, Quad { place: Place::Sidebar, fill: Fill::SidebarBackground });
}

/// The bars are always there, the status bar where it is shown; the title of
/// the open menu is highlighted, and no other.
pub proof fn the_bars_are_drawn(c: Chrome, title: usize)
    requires
        c.tabs@.len() <= usize::MAX,
    ensures
        ({
            let all = composed(c).base_quads;
            &&& all.contains((Quad { place: Place::MenuBar, fill: Fill::MenuBackground }))
            &&& all.contains((Quad { place: Place::TabBar, fill: Fill::TabBar }))
            &&& all.contains((Quad { place: Place::Gutter, fill: Fill::GutterBackground }))
            &&& c.show_status_bar == all.contains(
                (Quad { place: Place::StatusBar, fill: Fill::StatusBar }),
            )
            &&& (c.menu.open == Some(title) && title < c.titles) == all.contains(
                (Quad { place: Place::MenuTitle(title), fill: Fill::MenuHighlight }),
            )
        }),
{
    let bars = furniture(c);
    assert(bars[0] == (Quad { place: Place::MenuBar, fill: Fill::MenuBackground }));
    assert(bars[1] == (Quad { place: Place::TabBar, fill: Fill::TabBar }));
    assert(bars[2] == (Quad { place: Place::Gutter, fill: Fill::GutterBackground }));
    the_base_holds(c, bars[0]);
    the_base_holds(c, bars[1]);
    the_base_holds(c, bars[2]);
    let status = Quad { place: Place::StatusBar, fill: Fill::StatusBar };
    let lit = Quad { place: Place::MenuTitle(title), fill: Fill::MenuHighlight };
    if c.show_status_bar {
        assert(bars[3] == status);
        the_base_holds(c, status);
    }
    if c.menu.open == Some(title) && title < c.titles {
        assert(title_quads(c)[0] == lit);
        the_base_holds(c, lit);
    }
    if composed(c).base_quads.contains(status) {
        a_quad_of_the_base(c, status);
    }
    if composed(c).base_quads.contains(lit) {
        a_quad_of_the_base(c, lit);
    }
}

/// Every surface that is shown has its text, clipped to itself, and in the
/// status bar in the colour of what is told. What cannot be chosen in a
/// dropdown is dim.
pub proof fn every_surface_has_its_text(c: Chrome)
    ensures
        ({
            let base = composed(c).base_text;
            let over = composed(c).overlay_text;
            &&& base.contains(
                (TextRegionPlacement {
                    region: Region::Tabs,
                    clip: Place::TabBar,
                    color: Role::TabText,
                }),
            )
            &&& base.contains(
                (TextRegionPlacement {
                    region: Region::Menu,
                    clip: Place::MenuBar,
                    color: Role::StatusText,
                }),
            )
            &&& c.sidebar_panel ==> base.contains(
                (TextRegionPlacement {
                    region: Region::Sidebar,
                    clip: Place::Sidebar,
                    color: Role::Text,
                }),
            )
            &&& c.show_status_bar ==> base.contains(
                (TextRegionPlacement {
                    region: Region::Status,
                    clip: Place::StatusBar,
                    color: c.status_color,
                }),
            )
            &&& c.show_status_bar ==> base.contains(
                (TextRegionPlacement {
                    region: Region::StatusRight,
                    clip: Place::StatusBar,
                    color: Role::DimText,
                }),
            )
            &&& c.dropdown ==> over.contains(
                (TextRegionPlacement {
                    region: Region::MenuDropdown,
                    clip: Place::Dropdown,
                    color: Role::Text,
                }),
            )
            &&& c.dropdown ==> over.contains(
                (TextRegionPlacement {
                    region: Region::MenuDropdownDisabled,
                    clip: Place::Dropdown,
                    color: Role::DimText,
                }),
            )
            &&& c.prompt ==> over.contains(
                (TextRegionPlacement {
                    region: Region::Prompt,
                    clip: Place::Prompt,
                    color: Role::Text,
                }),
            )
            &&& c.overlay_panel ==> over.contains(
                (TextRegionPlacement {
                    region: Region::Overlay,
                    clip: Place::Panel,
                    color: Role::DimText,
                }),
            )
        }),
{
    let base = composed(c).base_text;
    let over = composed(c).overlay_text;
    let s: int = if c.sidebar_panel {
        1
    } else {
        0
    };
    assert(c.sidebar_panel ==> base[0].region == Region::Sidebar);
    assert(base[s].region == Region::Tabs);
    assert(base[s + 1].region == Region::Menu);
    assert(c.show_status_bar ==> base[s + 2].region == Region::Status);
    assert(c.show_status_bar ==> base[s + 3].region == Region::StatusRight);
    let d: int = if c.dropdown {
        2
    } else {
        0
    };
    let p: int = if c.prompt {
        1
    } else {
        0
    };
    assert(c.dropdown ==> over[0].region == Region::MenuDropdown);
    assert(c.dropdown ==> over[1].region == Region::MenuDropdownDisabled);
    assert(c.prompt ==> over[d].region == Region::Prompt);
    assert(c.overlay_panel ==> over[d + p].region == Region::Overlay);
}

/// The row of the dropdown under the pointer is highlighted if it would run,
/// and no other row is.
pub proof fn the_row_under_the_pointer_is_lit(c: Chrome, row: usize)
    ensures
        ({
            let lit = c.dropdown && c.menu.hovered_item == Some(row) && row < c.rows && (row
                >= c.menu_enabled@.len() || c.menu_enabled@[row as int]);
            lit == composed(c).overlay_quads.contains(
                (Quad { place: Place::DropdownRow(row), fill: Fill::MenuHighlight }),
            )
        }),
{
    let all = composed(c).overlay_quads;
    let q = Quad { place: Place::DropdownRow(row), fill: Fill::MenuHighlight };
    let lit = c.dropdown && c.menu.hovered_item == Some(row) && row < c.rows && (row
        >= c.menu_enabled@.len() || c.menu_enabled@[row as int]);
    if lit {
        assert(all[2] == q);
    }
}

/// Text that is drawn is found in its layer, the topmost one first, and what
/// covers a place is a quad of that layer with none over it.
pub proof fn what_is_asked_of_a_frame_is_what_it_holds(d: Drawn, region: Region)
    ensures
        layer_shown(d, region) == Some(Layer::Overlay) <==> exists|i: int|
            0 <= i < d.overlay_text.len() && (#[trigger] d.overlay_text[i]).region == region,
        layer_shown(d, region) is None <==> (forall|i: int|
            0 <= i < d.overlay_text.len() ==> (#[trigger] d.overlay_text[i]).region != region) && (
        forall|i: int|
            0 <= i < d.base_text.len() ==> (#[trigger] d.base_text[i]).region != region),
        quads_of(d, Layer::Base) == d.base_quads,
        quads_of(d, Layer::Overlay) == d.overlay_quads,
{
}

/// The quad found over a place covers it, and nothing drawn after it does.
pub proof fn the_topmost_quad_is_the_last(quads: Seq<Quad>, place: Place, at: int)
    requires
        0 <= at < quads.len(),
        covers(quads[at].place, place),
        forall|k: int| at < k < quads.len() ==> !covers((#[trigger] quads[k]).place, place),
    ensures
        topmost(quads, place) == Some(quads[at]),
    decreases quads.len(),
{
    if at < quads.len() - 1 {
        assert(!covers(quads[quads.len() - 1].place, place));
        assert forall|k: int| at < k < quads.drop_last().len() implies !covers(
            (#[trigger] quads.drop_last()[k]).place,
            place,
        ) by {
            assert(quads.drop_last()[k] == quads[k]);
        }
        the_topmost_quad_is_the_last(quads.drop_last(), place, at);
    }
}

} // verus!

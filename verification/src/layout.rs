use vstd::prelude::*;

verus! {

/// A point or extent on the map grid (world units; every layout coordinate
/// is whole).
#[derive(Clone, Copy, PartialEq, Eq, Structural, Debug, Hash)]
pub struct Point {
    pub x: i32,
    pub y: i32,
}

/// Half extents of the walkable world.
pub const MAP_HALF_WIDTH: i32 = 1180;
pub const MAP_HALF_HEIGHT: i32 = 720;
/// Full size of the floor: twice the half extents.
pub const MAP_FLOOR_WIDTH: i32 = 2360;
pub const MAP_FLOOR_HEIGHT: i32 = 1440;
/// Thickness of the outer wall.
pub const BORDER_THICKNESS: i32 = 16;
/// Collision radius of a player.
pub const PLAYER_RADIUS: i32 = 14;

/// World movement bounds (half extents).
pub fn map_bounds() -> (r: Point)
    ensures
        r == (Point { x: MAP_HALF_WIDTH, y: MAP_HALF_HEIGHT }),
{
    Point { x: MAP_HALF_WIDTH, y: MAP_HALF_HEIGHT }
}

/// Floor size: twice the movement bounds in each axis.
pub fn map_floor_size() -> (r: Point)
    ensures
        r == (Point { x: MAP_FLOOR_WIDTH, y: MAP_FLOOR_HEIGHT }),
        r.x == 2 * MAP_HALF_WIDTH,
        r.y == 2 * MAP_HALF_HEIGHT,
{
    Point { x: MAP_FLOOR_WIDTH, y: MAP_FLOOR_HEIGHT }
}

#[derive(Clone, Copy, PartialEq, Eq, Structural, Debug, Hash)]
pub enum CorridorAxis {
    Horizontal,
    Vertical,
}

/// A straight corridor: a walkable rectangle with walls along its length.
#[derive(Clone, Copy, PartialEq, Eq, Structural, Debug)]
pub struct CorridorSpec {
    pub center: Point,
    pub size: Point,
    pub axis: CorridorAxis,
}

#[derive(Clone, Copy, PartialEq, Eq, Structural, Debug, Hash)]
pub enum FloorKind {
    Wood,
    Carpet,
}

#[derive(Clone, Copy, PartialEq, Eq, Structural, Debug, Hash)]
pub enum Side {
    Top,
    Bottom,
    Left,
    Right,
}

/// An opening in a room wall: which wall, the offset of its center along
/// that wall (x for top/bottom, y for left/right) and its width.
#[derive(Clone, Copy, PartialEq, Eq, Structural, Debug)]
pub struct Doorway {
    pub side: Side,
    pub offset: i32,
    pub width: i32,
}

/// A rectangular room with its doorways.
#[derive(Clone, Debug)]
pub struct RoomSpec {
    pub name: &'static str,
    pub center: Point,
    pub size: Point,
    pub floor: FloorKind,
    pub doors: Vec<Doorway>,
}

/// Mathematical model of a room.
pub struct RoomModel {
    pub name: Seq<char>,
    pub center: Point,
    pub size: Point,
    pub floor: FloorKind,
    pub doors: Seq<Doorway>,
}

impl View for RoomSpec {
    type V = RoomModel;

    open spec fn view(&self) -> RoomModel {
        RoomModel { name: self.name@, center: self.center, size: self.size, floor: self.floor, doors: self.doors@ }
    }
}

/// A task console.
#[derive(Clone, Copy, PartialEq, Eq, Debug)]
pub struct TaskStationSpec {
    pub id: u32,
    pub label: &'static str,
    pub position: Point,
}

pub const BRIEFING_CENTER_X: i32 = 0;
pub const BRIEFING_CENTER_Y: i32 = 0;

/// Oxygen fix consoles.
pub open spec fn spec_oxygen_stations() -> Seq<Point> {
    seq![Point { x: 790, y: 175 }, Point { x: 790, y: -175i32 }]
}

/// Reactor fix consoles.
pub open spec fn spec_reactor_stations() -> Seq<Point> {
    seq![Point { x: -1010i32, y: -175i32 }, Point { x: -790i32, y: -175i32 }]
}

pub open spec fn spec_lights_station() -> Point {
    Point { x: 0, y: 560 }
}

pub open spec fn spec_emergency_button() -> Point {
    Point { x: 0, y: -35i32 }
}

/// Oxygen fix consoles.
pub fn oxygen_stations() -> (r: [Point; 2])
    ensures
        r@ == spec_oxygen_stations(),
{
    let r = [Point { x: 790, y: 175 }, Point { x: 790, y: -175i32 }];
    proof { assert(r@ =~= spec_oxygen_stations()); }
    r
}

/// Reactor fix consoles.
pub fn reactor_stations() -> (r: [Point; 2])
    ensures
        r@ == spec_reactor_stations(),
{
    let r = [Point { x: -1010i32, y: -175i32 }, Point { x: -790i32, y: -175i32 }];
    proof { assert(r@ =~= spec_reactor_stations()); }
    r
}

/// The lights fix console.
pub fn lights_station() -> (r: Point)
    ensures
        r == spec_lights_station(),
{
    Point { x: 0, y: 560 }
}

/// Position of the emergency button.
pub fn emergency_button_position() -> (r: Point)
    ensures
        r == spec_emergency_button(),
{
    Point { x: 0, y: -35i32 }
}

/// The corridors joining the rooms.
pub open spec fn spec_corridors() -> Seq<CorridorSpec> {
    seq![
        CorridorSpec { center: Point { x: -450i32, y: 65 }, size: Point { x: 540, y: 84 }, axis: CorridorAxis::Horizontal },
        CorridorSpec { center: Point { x: -450i32, y: -65i32 }, size: Point { x: 540, y: 84 }, axis: CorridorAxis::Horizontal },
        CorridorSpec { center: Point { x: 450, y: 65 }, size: Point { x: 540, y: 84 }, axis: CorridorAxis::Horizontal },
        CorridorSpec { center: Point { x: 450, y: -65i32 }, size: Point { x: 540, y: 84 }, axis: CorridorAxis::Horizontal },
        CorridorSpec { center: Point { x: -900i32, y: 0 }, size: Point { x: 84, y: 100 }, axis: CorridorAxis::Vertical },
        CorridorSpec { center: Point { x: 900, y: 0 }, size: Point { x: 84, y: 100 }, axis: CorridorAxis::Vertical },
        CorridorSpec { center: Point { x: 0, y: 290 }, size: Point { x: 96, y: 320 }, axis: CorridorAxis::Vertical },
        CorridorSpec { center: Point { x: 0, y: -290i32 }, size: Point { x: 96, y: 320 }, axis: CorridorAxis::Vertical },
    ]
}

/// The corridors joining the rooms.
pub fn corridors() -> (r: Vec<CorridorSpec>)
    ensures
        r@ == spec_corridors(),
        r@.len() == 8,
{
    let r: Vec<CorridorSpec> = vec![
        CorridorSpec { center: Point { x: -450i32, y: 65 }, size: Point { x: 540, y: 84 }, axis: CorridorAxis::Horizontal },
        CorridorSpec { center: Point { x: -450i32, y: -65i32 }, size: Point { x: 540, y: 84 }, axis: CorridorAxis::Horizontal },
        CorridorSpec { center: Point { x: 450, y: 65 }, size: Point { x: 540, y: 84 }, axis: CorridorAxis::Horizontal },
        CorridorSpec { center: Point { x: 450, y: -65i32 }, size: Point { x: 540, y: 84 }, axis: CorridorAxis::Horizontal },
        CorridorSpec { center: Point { x: -900i32, y: 0 }, size: Point { x: 84, y: 100 }, axis: CorridorAxis::Vertical },
        CorridorSpec { center: Point { x: 900, y: 0 }, size: Point { x: 84, y: 100 }, axis: CorridorAxis::Vertical },
        CorridorSpec { center: Point { x: 0, y: 290 }, size: Point { x: 96, y: 320 }, axis: CorridorAxis::Vertical },
        CorridorSpec { center: Point { x: 0, y: -290i32 }, size: Point { x: 96, y: 320 }, axis: CorridorAxis::Vertical },
    ];
    proof {
        assert(r@ =~= spec_corridors());
    }
    r
}

/// Task stations: id, label and position.
pub open spec fn spec_task_stations() -> Seq<TaskStationSpec> {
    seq![
        TaskStationSpec { id: 1, label: "Align records", position: Point { x: -1010i32, y: 210 } },
        TaskStationSpec { id: 2, label: "Restore archive power", position: Point { x: -810i32, y: 110 } },
        TaskStationSpec { id: 3, label: "Decode signal", position: Point { x: 1010, y: 210 } },
        TaskStationSpec { id: 4, label: "Calibrate antenna", position: Point { x: 810, y: 110 } },
        TaskStationSpec { id: 5, label: "Prime coolant", position: Point { x: -1010i32, y: -210i32 } },
        TaskStationSpec { id: 6, label: "Stabilize core", position: Point { x: -810i32, y: -110i32 } },
        TaskStationSpec { id: 7, label: "Medical scan", position: Point { x: 1010, y: -205i32 } },
        TaskStationSpec { id: 8, label: "Sort samples", position: Point { x: 810, y: -105i32 } },
        TaskStationSpec { id: 9, label: "Reset breakers", position: Point { x: -90i32, y: 560 } },
        TaskStationSpec { id: 10, label: "Chart cargo", position: Point { x: 90, y: -560i32 } },
    ]
}

/// Task stations: id, label and position.
pub fn task_stations() -> (r: Vec<TaskStationSpec>)
    ensures
        r@ == spec_task_stations(),
        r@.len() == 10,
{
    let r: Vec<TaskStationSpec> = vec![
        TaskStationSpec { id: 1, label: "Align records", position: Point { x: -1010i32, y: 210 } },
        TaskStationSpec { id: 2, label: "Restore archive power", position: Point { x: -810i32, y: 110 } },
        TaskStationSpec { id: 3, label: "Decode signal", position: Point { x: 1010, y: 210 } },
        TaskStationSpec { id: 4, label: "Calibrate antenna", position: Point { x: 810, y: 110 } },
        TaskStationSpec { id: 5, label: "Prime coolant", position: Point { x: -1010i32, y: -210i32 } },
        TaskStationSpec { id: 6, label: "Stabilize core", position: Point { x: -810i32, y: -110i32 } },
        TaskStationSpec { id: 7, label: "Medical scan", position: Point { x: 1010, y: -205i32 } },
        TaskStationSpec { id: 8, label: "Sort samples", position: Point { x: 810, y: -105i32 } },
        TaskStationSpec { id: 9, label: "Reset breakers", position: Point { x: -90i32, y: 560 } },
        TaskStationSpec { id: 10, label: "Chart cargo", position: Point { x: 90, y: -560i32 } },
    ];
    proof {
        assert(r@ =~= spec_task_stations());
    }
    r
}

/// Spawn points, assigned to players in lobby order.
pub open spec fn spec_player_spawns() -> Seq<Point> {
    seq![
        Point { x: -120i32, y: 90 },
        Point { x: -40i32, y: 100 },
        Point { x: 40, y: 100 },
        Point { x: 120, y: 90 },
        Point { x: -120i32, y: -90i32 },
        Point { x: -40i32, y: -100i32 },
        Point { x: 40, y: -100i32 },
        Point { x: 120, y: -90i32 },
        Point { x: -150i32, y: 0 },
        Point { x: 150, y: 0 },
    ]
}

/// Spawn points, assigned to players in lobby order.
pub fn player_spawns() -> (r: Vec<Point>)
    ensures
        r@ == spec_player_spawns(),
        r@.len() == 10,
{
    let r: Vec<Point> = vec![
        Point { x: -120i32, y: 90 },
        Point { x: -40i32, y: 100 },
        Point { x: 40, y: 100 },
        Point { x: 120, y: 90 },
        Point { x: -120i32, y: -90i32 },
        Point { x: -40i32, y: -100i32 },
        Point { x: 40, y: -100i32 },
        Point { x: 120, y: -90i32 },
        Point { x: -150i32, y: 0 },
        Point { x: 150, y: 0 },
    ];
    proof {
        assert(r@ =~= spec_player_spawns());
    }
    r
}

/// Navigation graph nodes: room centers, doorways and corridor midpoints.
pub open spec fn spec_nav_nodes() -> Seq<Point> {
    seq![
        Point { x: 0, y: 105 },
        Point { x: 0, y: -105i32 },
        Point { x: -145i32, y: 0 },
        Point { x: 145, y: 0 },
        Point { x: -900i32, y: 175 },
        Point { x: 900, y: 175 },
        Point { x: -900i32, y: -175i32 },
        Point { x: 900, y: -175i32 },
        Point { x: 0, y: 560 },
        Point { x: 0, y: -560i32 },
        Point { x: -450i32, y: 65 },
        Point { x: -450i32, y: -65i32 },
        Point { x: 450, y: 65 },
        Point { x: 450, y: -65i32 },
        Point { x: 0, y: 290 },
        Point { x: 0, y: -290i32 },
        Point { x: -900i32, y: 0 },
        Point { x: 900, y: 0 },
        Point { x: -120i32, y: 95 },
        Point { x: 120, y: 95 },
        Point { x: -120i32, y: -80i32 },
        Point { x: 120, y: -80i32 },
    ]
}

/// Navigation graph nodes: room centers, doorways and corridor midpoints.
pub fn nav_nodes() -> (r: Vec<Point>)
    ensures
        r@ == spec_nav_nodes(),
        r@.len() == 22,
{
    let r: Vec<Point> = vec![
        Point { x: 0, y: 105 },
        Point { x: 0, y: -105i32 },
        Point { x: -145i32, y: 0 },
        Point { x: 145, y: 0 },
        Point { x: -900i32, y: 175 },
        Point { x: 900, y: 175 },
        Point { x: -900i32, y: -175i32 },
        Point { x: 900, y: -175i32 },
        Point { x: 0, y: 560 },
        Point { x: 0, y: -560i32 },
        Point { x: -450i32, y: 65 },
        Point { x: -450i32, y: -65i32 },
        Point { x: 450, y: 65 },
        Point { x: 450, y: -65i32 },
        Point { x: 0, y: 290 },
        Point { x: 0, y: -290i32 },
        Point { x: -900i32, y: 0 },
        Point { x: 900, y: 0 },
        Point { x: -120i32, y: 95 },
        Point { x: 120, y: 95 },
        Point { x: -120i32, y: -80i32 },
        Point { x: 120, y: -80i32 },
    ];
    proof {
        assert(r@ =~= spec_nav_nodes());
    }
    r
}

/// Undirected navigation graph edges, as pairs of node indices.
pub open spec fn spec_nav_edges() -> Seq<(usize, usize)> {
    seq![
        (0, 18),
        (0, 19),
        (1, 20),
        (1, 21),
        (2, 18),
        (2, 20),
        (3, 19),
        (3, 21),
        (0, 14),
        (14, 8),
        (1, 15),
        (15, 9),
        (2, 10),
        (10, 4),
        (2, 11),
        (11, 6),
        (3, 12),
        (12, 5),
        (3, 13),
        (13, 7),
        (4, 16),
        (16, 6),
        (5, 17),
        (17, 7),
    ]
}

/// Undirected navigation graph edges, as pairs of node indices.
pub fn nav_edges() -> (r: Vec<(usize, usize)>)
    ensures
        r@ == spec_nav_edges(),
        r@.len() == 24,
{
    let r: Vec<(usize, usize)> = vec![
        (0, 18),
        (0, 19),
        (1, 20),
        (1, 21),
        (2, 18),
        (2, 20),
        (3, 19),
        (3, 21),
        (0, 14),
        (14, 8),
        (1, 15),
        (15, 9),
        (2, 10),
        (10, 4),
        (2, 11),
        (11, 6),
        (3, 12),
        (12, 5),
        (3, 13),
        (13, 7),
        (4, 16),
        (16, 6),
        (5, 17),
        (17, 7),
    ];
    proof {
        assert(r@ =~= spec_nav_edges());
    }
    r
}
/// The rooms of the layout table, with their doorways.
pub open spec fn spec_rooms() -> Seq<RoomModel> {
    seq![
        RoomModel { name: "Briefing"@, center: Point { x: 0, y: 0 }, size: Point { x: 360, y: 260 }, floor: FloorKind::Carpet, doors: seq![Doorway { side: Side::Left, offset: 65, width: 84 }, Doorway { side: Side::Left, offset: -65i32, width: 84 }, Doorway { side: Side::Right, offset: 65, width: 84 }, Doorway { side: Side::Right, offset: -65i32, width: 84 }, Doorway { side: Side::Top, offset: 0, width: 96 }, Doorway { side: Side::Bottom, offset: 0, width: 96 }] },
        RoomModel { name: "Archives"@, center: Point { x: -900i32, y: 175 }, size: Point { x: 360, y: 250 }, floor: FloorKind::Carpet, doors: seq![Doorway { side: Side::Right, offset: -110i32, width: 84 }, Doorway { side: Side::Bottom, offset: 0, width: 84 }] },
        RoomModel { name: "Comms"@, center: Point { x: 900, y: 175 }, size: Point { x: 360, y: 250 }, floor: FloorKind::Carpet, doors: seq![Doorway { side: Side::Left, offset: -110i32, width: 84 }, Doorway { side: Side::Bottom, offset: 0, width: 84 }] },
        RoomModel { name: "Reactor"@, center: Point { x: -900i32, y: -175i32 }, size: Point { x: 360, y: 250 }, floor: FloorKind::Wood, doors: seq![Doorway { side: Side::Right, offset: 110, width: 84 }, Doorway { side: Side::Top, offset: 0, width: 84 }] },
        RoomModel { name: "Medbay"@, center: Point { x: 900, y: -175i32 }, size: Point { x: 360, y: 250 }, floor: FloorKind::Carpet, doors: seq![Doorway { side: Side::Left, offset: 110, width: 84 }, Doorway { side: Side::Top, offset: 0, width: 84 }] },
        RoomModel { name: "Electrical"@, center: Point { x: 0, y: 560 }, size: Point { x: 320, y: 220 }, floor: FloorKind::Wood, doors: seq![Doorway { side: Side::Bottom, offset: 0, width: 96 }] },
        RoomModel { name: "Storage"@, center: Point { x: 0, y: -560i32 }, size: Point { x: 360, y: 220 }, floor: FloorKind::Wood, doors: seq![Doorway { side: Side::Top, offset: 0, width: 96 }] },
    ]
}

/// The rooms of the layout table, with their doorways.
pub fn rooms() -> (r: Vec<RoomSpec>)
    ensures
        r@.len() == 7,
        forall|i: int| 0 <= i < 7 ==> (#[trigger] r@[i])@ == spec_rooms()[i],
{
    let r: Vec<RoomSpec> = vec![
        RoomSpec { name: "Briefing", center: Point { x: 0, y: 0 }, size: Point { x: 360, y: 260 }, floor: FloorKind::Carpet, doors: vec![Doorway { side: Side::Left, offset: 65, width: 84 }, Doorway { side: Side::Left, offset: -65i32, width: 84 }, Doorway { side: Side::Right, offset: 65, width: 84 }, Doorway { side: Side::Right, offset: -65i32, width: 84 }, Doorway { side: Side::Top, offset: 0, width: 96 }, Doorway { side: Side::Bottom, offset: 0, width: 96 }] },
        RoomSpec { name: "Archives", center: Point { x: -900i32, y: 175 }, size: Point { x: 360, y: 250 }, floor: FloorKind::Carpet, doors: vec![Doorway { side: Side::Right, offset: -110i32, width: 84 }, Doorway { side: Side::Bottom, offset: 0, width: 84 }] },
        RoomSpec { name: "Comms", center: Point { x: 900, y: 175 }, size: Point { x: 360, y: 250 }, floor: FloorKind::Carpet, doors: vec![Doorway { side: Side::Left, offset: -110i32, width: 84 }, Doorway { side: Side::Bottom, offset: 0, width: 84 }] },
        RoomSpec { name: "Reactor", center: Point { x: -900i32, y: -175i32 }, size: Point { x: 360, y: 250 }, floor: FloorKind::Wood, doors: vec![Doorway { side: Side::Right, offset: 110, width: 84 }, Doorway { side: Side::Top, offset: 0, width: 84 }] },
        RoomSpec { name: "Medbay", center: Point { x: 900, y: -175i32 }, size: Point { x: 360, y: 250 }, floor: FloorKind::Carpet, doors: vec![Doorway { side: Side::Left, offset: 110, width: 84 }, Doorway { side: Side::Top, offset: 0, width: 84 }] },
        RoomSpec { name: "Electrical", center: Point { x: 0, y: 560 }, size: Point { x: 320, y: 220 }, floor: FloorKind::Wood, doors: vec![Doorway { side: Side::Bottom, offset: 0, width: 96 }] },
        RoomSpec { name: "Storage", center: Point { x: 0, y: -560i32 }, size: Point { x: 360, y: 220 }, floor: FloorKind::Wood, doors: vec![Doorway { side: Side::Top, offset: 0, width: 96 }] },
    ];
    proof {
        assert(r@[0].doors@ =~= spec_rooms()[0].doors);
        assert(r@[1].doors@ =~= spec_rooms()[1].doors);
        assert(r@[2].doors@ =~= spec_rooms()[2].doors);
        assert(r@[3].doors@ =~= spec_rooms()[3].doors);
        assert(r@[4].doors@ =~= spec_rooms()[4].doors);
        assert(r@[5].doors@ =~= spec_rooms()[5].doors);
        assert(r@[6].doors@ =~= spec_rooms()[6].doors);
    }
    r
}

/// The rooms the map builder spawns: the same rooms with narrower doorways.
pub open spec fn spec_map_rooms() -> Seq<RoomModel> {
    seq![
        RoomModel { name: "Briefing"@, center: Point { x: 0, y: 0 }, size: Point { x: 360, y: 260 }, floor: FloorKind::Carpet, doors: seq![Doorway { side: Side::Left, offset: 52, width: 72 }, Doorway { side: Side::Left, offset: -52i32, width: 72 }, Doorway { side: Side::Right, offset: 52, width: 72 }, Doorway { side: Side::Right, offset: -52i32, width: 72 }, Doorway { side: Side::Top, offset: 0, width: 84 }, Doorway { side: Side::Bottom, offset: 0, width: 84 }] },
        RoomModel { name: "Archives"@, center: Point { x: -900i32, y: 175 }, size: Point { x: 360, y: 250 }, floor: FloorKind::Carpet, doors: seq![Doorway { side: Side::Right, offset: -68i32, width: 72 }, Doorway { side: Side::Bottom, offset: 0, width: 76 }] },
        RoomModel { name: "Comms"@, center: Point { x: 900, y: 175 }, size: Point { x: 360, y: 250 }, floor: FloorKind::Carpet, doors: seq![Doorway { side: Side::Left, offset: -68i32, width: 72 }, Doorway { side: Side::Bottom, offset: 0, width: 76 }] },
        RoomModel { name: "Reactor"@, center: Point { x: -900i32, y: -175i32 }, size: Point { x: 360, y: 250 }, floor: FloorKind::Wood, doors: seq![Doorway { side: Side::Right, offset: 68, width: 72 }, Doorway { side: Side::Top, offset: 0, width: 76 }] },
        RoomModel { name: "Medbay"@, center: Point { x: 900, y: -175i32 }, size: Point { x: 360, y: 250 }, floor: FloorKind::Carpet, doors: seq![Doorway { side: Side::Left, offset: 68, width: 72 }, Doorway { side: Side::Top, offset: 0, width: 76 }] },
        RoomModel { name: "Electrical"@, center: Point { x: 0, y: 560 }, size: Point { x: 320, y: 220 }, floor: FloorKind::Wood, doors: seq![Doorway { side: Side::Bottom, offset: 0, width: 84 }] },
        RoomModel { name: "Storage"@, center: Point { x: 0, y: -560i32 }, size: Point { x: 360, y: 220 }, floor: FloorKind::Wood, doors: seq![Doorway { side: Side::Top, offset: 0, width: 84 }] },
    ]
}

/// The rooms the map builder spawns: the same rooms with narrower doorways.
pub fn map_rooms() -> (r: Vec<RoomSpec>)
    ensures
        r@.len() == 7,
        forall|i: int| 0 <= i < 7 ==> (#[trigger] r@[i])@ == spec_map_rooms()[i],
{
    let r: Vec<RoomSpec> = vec![
        RoomSpec { name: "Briefing", center: Point { x: 0, y: 0 }, size: Point { x: 360, y: 260 }, floor: FloorKind::Carpet, doors: vec![Doorway { side: Side::Left, offset: 52, width: 72 }, Doorway { side: Side::Left, offset: -52i32, width: 72 }, Doorway { side: Side::Right, offset: 52, width: 72 }, Doorway { side: Side::Right, offset: -52i32, width: 72 }, Doorway { side: Side::Top, offset: 0, width: 84 }, Doorway { side: Side::Bottom, offset: 0, width: 84 }] },
        RoomSpec { name: "Archives", center: Point { x: -900i32, y: 175 }, size: Point { x: 360, y: 250 }, floor: FloorKind::Carpet, doors: vec![Doorway { side: Side::Right, offset: -68i32, width: 72 }, Doorway { side: Side::Bottom, offset: 0, width: 76 }] },
        RoomSpec { name: "Comms", center: Point { x: 900, y: 175 }, size: Point { x: 360, y: 250 }, floor: FloorKind::Carpet, doors: vec![Doorway { side: Side::Left, offset: -68i32, width: 72 }, Doorway { side: Side::Bottom, offset: 0, width: 76 }] },
        RoomSpec { name: "Reactor", center: Point { x: -900i32, y: -175i32 }, size: Point { x: 360, y: 250 }, floor: FloorKind::Wood, doors: vec![Doorway { side: Side::Right, offset: 68, width: 72 }, Doorway { side: Side::Top, offset: 0, width: 76 }] },
        RoomSpec { name: "Medbay", center: Point { x: 900, y: -175i32 }, size: Point { x: 360, y: 250 }, floor: FloorKind::Carpet, doors: vec![Doorway { side: Side::Left, offset: 68, width: 72 }, Doorway { side: Side::Top, offset: 0, width: 76 }] },
        RoomSpec { name: "Electrical", center: Point { x: 0, y: 560 }, size: Point { x: 320, y: 220 }, floor: FloorKind::Wood, doors: vec![Doorway { side: Side::Bottom, offset: 0, width: 84 }] },
        RoomSpec { name: "Storage", center: Point { x: 0, y: -560i32 }, size: Point { x: 360, y: 220 }, floor: FloorKind::Wood, doors: vec![Doorway { side: Side::Top, offset: 0, width: 84 }] },
    ];
    proof {
        assert(r@[0].doors@ =~= spec_map_rooms()[0].doors);
        assert(r@[1].doors@ =~= spec_map_rooms()[1].doors);
        assert(r@[2].doors@ =~= spec_map_rooms()[2].doors);
        assert(r@[3].doors@ =~= spec_map_rooms()[3].doors);
        assert(r@[4].doors@ =~= spec_map_rooms()[4].doors);
        assert(r@[5].doors@ =~= spec_map_rooms()[5].doors);
        assert(r@[6].doors@ =~= spec_map_rooms()[6].doors);
    }
    r
}

/// Doubled coordinates of the point where a doorway crosses its wall.
pub open spec fn door_point2(room: RoomModel, door: Doorway) -> (int, int) {
    match door.side {
        Side::Top => (2 * room.center.x + 2 * door.offset, 2 * room.center.y + room.size.y),
        Side::Bottom => (2 * room.center.x + 2 * door.offset, 2 * room.center.y - room.size.y),
        Side::Left => (2 * room.center.x - room.size.x, 2 * room.center.y + 2 * door.offset),
        Side::Right => (2 * room.center.x + room.size.x, 2 * room.center.y + 2 * door.offset),
    }
}

/// A point given in doubled coordinates lies in the rectangle grown by `margin`.
pub open spec fn inside_rect2(p2: (int, int), center: Point, size: Point, margin: int) -> bool {
    &&& p2.0 >= 2 * center.x - size.x - 2 * margin
    &&& p2.0 <= 2 * center.x + size.x + 2 * margin
    &&& p2.1 >= 2 * center.y - size.y - 2 * margin
    &&& p2.1 <= 2 * center.y + size.y + 2 * margin
}

/// The point lies in the rectangle grown by `margin` (borders included).
pub open spec fn inside_rect(p: Point, center: Point, size: Point, margin: int) -> bool {
    inside_rect2((2 * p.x, 2 * p.y), center, size, margin)
}

/// The doorway opens onto this corridor (within one unit of its floor).
pub open spec fn door_meets_corridor(room: RoomModel, door: Doorway, corridor: CorridorSpec) -> bool {
    inside_rect2(door_point2(room, door), corridor.center, corridor.size, 1)
}

/// The doorway opens onto some corridor of the layout.
pub open spec fn door_connects(room: RoomModel, door: Doorway) -> bool {
    exists|j: int| 0 <= j < spec_corridors().len() && #[trigger] door_meets_corridor(room, door, spec_corridors()[j])
}

/// The point is on the floor of some room or corridor of the layout.
pub open spec fn spec_point_inside_room_or_corridor(p: Point) -> bool {
    ||| exists|i: int| 0 <= i < spec_rooms().len() && #[trigger] inside_rect(p, spec_rooms()[i].center, spec_rooms()[i].size, 0)
    ||| exists|j: int| 0 <= j < spec_corridors().len() && #[trigger] inside_rect(p, spec_corridors()[j].center, spec_corridors()[j].size, 0)
}

/// Walking width of a corridor: its extent across the walking direction.
pub open spec fn spec_corridor_width(c: CorridorSpec) -> i32 {
    match c.axis {
        CorridorAxis::Horizontal => c.size.y,
        CorridorAxis::Vertical => c.size.x,
    }
}

/// Walking width of a corridor.
pub fn corridor_width(c: &CorridorSpec) -> (r: i32)
    ensures
        r == spec_corridor_width(*c),
{
    match c.axis {
        CorridorAxis::Horizontal => c.size.y,
        CorridorAxis::Vertical => c.size.x,
    }
}

fn inside_rect2_exec(px2: i64, py2: i64, center: Point, size: Point, margin: i64) -> (r: bool)
    requires
        -4 <= margin <= 4,
    ensures
        r == inside_rect2((px2 as int, py2 as int), center, size, margin as int),
{
    let cx = center.x as i64;
    let cy = center.y as i64;
    let sx = size.x as i64;
    let sy = size.y as i64;
    px2 >= 2 * cx - sx - 2 * margin && px2 <= 2 * cx + sx + 2 * margin && py2 >= 2 * cy - sy - 2 * margin && py2 <= 2 * cy + sy + 2 * margin
}

/// Whether the point is on the floor of some room or corridor.
pub fn point_inside_room_or_corridor(p: Point) -> (r: bool)
    ensures
        r == spec_point_inside_room_or_corridor(p),
{
    let rooms = rooms();
    let corridors = corridors();
    let px2 = 2 * (p.x as i64);
    let py2 = 2 * (p.y as i64);
    let mut i: usize = 0;
    while i < rooms.len()
        invariant
            i <= rooms@.len() == 7,
            px2 == 2 * p.x,
            py2 == 2 * p.y,
            forall|k: int| 0 <= k < 7 ==> (#[trigger] rooms@[k])@ == spec_rooms()[k],
            forall|k: int| 0 <= k < i ==> !inside_rect(p, #[trigger] spec_rooms()[k].center, spec_rooms()[k].size, 0),
        decreases rooms@.len() - i,
    {
        assert(rooms@[i as int]@ == spec_rooms()[i as int]);
        if inside_rect2_exec(px2, py2, rooms[i].center, rooms[i].size, 0) {
            assert(inside_rect(p, spec_rooms()[i as int].center, spec_rooms()[i as int].size, 0));
            return true;
        }
        assert(!inside_rect(p, spec_rooms()[i as int].center, spec_rooms()[i as int].size, 0));
        i = i + 1;
    }
    let mut j: usize = 0;
    while j < corridors.len()
        invariant
            j <= corridors@.len() == 8,
            corridors@ == spec_corridors(),
            px2 == 2 * p.x,
            py2 == 2 * p.y,
            forall|k: int| 0 <= k < 7 ==> !inside_rect(p, #[trigger] spec_rooms()[k].center, spec_rooms()[k].size, 0),
            forall|k: int| 0 <= k < j ==> !inside_rect(p, #[trigger] spec_corridors()[k].center, spec_corridors()[k].size, 0),
        decreases corridors@.len() - j,
    {
        if inside_rect2_exec(px2, py2, corridors[j].center, corridors[j].size, 0) {
            assert(inside_rect(p, spec_corridors()[j as int].center, spec_corridors()[j as int].size, 0));
            return true;
        }
        assert(!inside_rect(p, spec_corridors()[j as int].center, spec_corridors()[j as int].size, 0));
        j = j + 1;
    }
    false
}

/// Doubled coordinates of the point where a doorway crosses its wall.
pub fn door_point2_exec(room: &RoomSpec, door: &Doorway) -> (r: (i64, i64))
    ensures
        (r.0 as int, r.1 as int) == door_point2(room@, *door),
{
    let cx = room.center.x as i64;
    let cy = room.center.y as i64;
    let sx = room.size.x as i64;
    let sy = room.size.y as i64;
    let off = door.offset as i64;
    match door.side {
        Side::Top => (2 * cx + 2 * off, 2 * cy + sy),
        Side::Bottom => (2 * cx + 2 * off, 2 * cy - sy),
        Side::Left => (2 * cx - sx, 2 * cy + 2 * off),
        Side::Right => (2 * cx + sx, 2 * cy + 2 * off),
    }
}

/// Whether the doorway opens onto some corridor of the layout.
pub fn door_connects_to_corridor(room: &RoomSpec, door: &Doorway) -> (r: bool)
    ensures
        r == door_connects(room@, *door),
{
    let corridors = corridors();
    let p = door_point2_exec(room, door);
    let mut j: usize = 0;
    while j < corridors.len()
        invariant
            j <= corridors@.len() == 8,
            corridors@ == spec_corridors(),
            (p.0 as int, p.1 as int) == door_point2(room@, *door),
            forall|k: int| 0 <= k < j ==> !#[trigger] door_meets_corridor(room@, *door, spec_corridors()[k]),
        decreases corridors@.len() - j,
    {
        if inside_rect2_exec(p.0, p.1, corridors[j].center, corridors[j].size, 1) {
            assert(door_meets_corridor(room@, *door, spec_corridors()[j as int]));
            return true;
        }
        j = j + 1;
    }
    false
}

// ---------------------------------------------------------------------------
// Wall spans

/// The gap `g` covers the unit cell `[x, x + 1)`.
pub open spec fn gap_covers(g: (i32, i32), x: int) -> bool {
    g.0 <= x && x + 1 <= g.1
}

/// Some gap covers the unit cell `[x, x + 1)`.
pub open spec fn gaps_cover(gaps: Seq<(i32, i32)>, x: int) -> bool {
    exists|j: int| 0 <= j < gaps.len() && #[trigger] gap_covers(gaps[j], x)
}

/// Some span covers the unit cell `[x, x + 1)`.
pub open spec fn spans_cover(spans: Seq<(i32, i32)>, x: int) -> bool {
    exists|j: int| 0 <= j < spans.len() && #[trigger] gap_covers(spans[j], x)
}

/// Non-empty spans inside `[start, end]`, in order, never touching.
pub open spec fn spans_well_formed(spans: Seq<(i32, i32)>, start: int, end: int) -> bool {
    &&& forall|j: int| 0 <= j < spans.len() ==> start <= (#[trigger] spans[j]).0 < spans[j].1 <= end
    &&& forall|i: int, j: int| 0 <= i < j < spans.len() ==> (#[trigger] spans[i]).1 < (#[trigger] spans[j]).0
}

/// Gaps ordered by start.
pub open spec fn sorted_by_start(s: Seq<(i32, i32)>) -> bool {
    forall|i: int, j: int| 0 <= i < j < s.len() ==> (#[trigger] s[i]).0 <= (#[trigger] s[j]).0
}

fn sort_by_start(gaps: &[(i32, i32)]) -> (r: Vec<(i32, i32)>)
    ensures
        sorted_by_start(r@),
        forall|g: (i32, i32)| r@.contains(g) <==> gaps@.contains(g),
{
    let mut r: Vec<(i32, i32)> = Vec::new();
    let mut i: usize = 0;
    while i < gaps.len()
        invariant
            i <= gaps@.len(),
            sorted_by_start(r@),
            forall|g: (i32, i32)| r@.contains(g) <==> gaps@.take(i as int).contains(g),
        decreases gaps@.len() - i,
    {
        let g = gaps[i];
        let mut pos: usize = 0;
        while pos < r.len() && r[pos].0 <= g.0
            invariant
                pos <= r@.len(),
                forall|k: int| 0 <= k < pos ==> (#[trigger] r@[k]).0 <= g.0,
            decreases r@.len() - pos,
        {
            pos = pos + 1;
        }
        let ghost before = r@;
        r.insert(pos, g);
        proof {
            assert(r@ == before.insert(pos as int, g));
            assert forall|a: int, b: int| 0 <= a < b < r@.len() implies (#[trigger] r@[a]).0 <= (#[trigger] r@[b]).0 by {
                if a < pos && b < pos as int {
                    assert(r@[a] == before[a] && r@[b] == before[b]);
                } else if a < pos && b == pos {
                    assert(r@[a] == before[a]);
                } else if a < pos {
                    assert(r@[a] == before[a] && r@[b] == before[b - 1]);
                    if pos < before.len() {
                        assert(before[pos as int].0 > g.0);
                        assert(before[a].0 <= g.0);
                    }
                } else if a == pos {
                    assert(r@[b] == before[b - 1]);
                    assert(before[pos as int].0 > g.0);
                    if b - 1 > pos {
                        assert(before[pos as int].0 <= before[b - 1].0);
                    }
                } else {
                    assert(r@[a] == before[a - 1] && r@[b] == before[b - 1]);
                }
            }
            assert(gaps@.take(i as int + 1) =~= gaps@.take(i as int).push(g));
            let prefix0 = gaps@.take(i as int);
            let prefix = gaps@.take(i as int + 1);
            assert forall|h: (i32, i32)| r@.contains(h) implies prefix.contains(h) by {
                let k = choose|k: int| 0 <= k < r@.len() && r@[k] == h;
                if k == pos {
                    assert(prefix[i as int] == g);
                } else {
                    let kb = if k < pos { k } else { k - 1 };
                    assert(before[kb] == h);
                    assert(before.contains(h));
                    assert(prefix0.contains(h));
                    let m = choose|m: int| 0 <= m < prefix0.len() && prefix0[m] == h;
                    assert(prefix[m] == prefix0[m]);
                }
            }
            assert forall|h: (i32, i32)| prefix.contains(h) implies r@.contains(h) by {
                let k = choose|k: int| 0 <= k < prefix.len() && prefix[k] == h;
                if k < i {
                    assert(prefix0[k] == prefix[k]);
                    assert(prefix0.contains(h));
                    assert(before.contains(h));
                    let m = choose|m: int| 0 <= m < before.len() && before[m] == h;
                    if m < pos {
                        assert(r@[m] == h);
                    } else {
                        assert(r@[m + 1] == h);
                    }
                } else {
                    assert(prefix[k] == g);
                    assert(r@[pos as int] == h);
                }
            }
        }
        i = i + 1;
    }
    proof {
        assert(gaps@.take(gaps@.len() as int) =~= gaps@);
    }
    r
}

fn clamp_i32(v: i32, lo: i32, hi: i32) -> (r: i32)
    requires
        lo <= hi,
    ensures
        r == if v < lo { lo } else if v > hi { hi } else { v },
{
    if v < lo {
        lo
    } else if v > hi {
        hi
    } else {
        v
    }
}

/// The parts of `[start, end]` left after cutting out the gaps, in order.
/// Gaps may be unsorted, overlap, or reach past the ends.
///
/// Every coordinate is whole, so the result is described by unit cells: a
/// cell of `[start, end)` lies in a returned span exactly when no gap covers
/// it, and the spans are non-empty, ordered and never touch, which makes
/// them the maximal uncovered runs.
pub fn split_spans(start: i32, end: i32, gaps: &[(i32, i32)]) -> (spans: Vec<(i32, i32)>)
    requires
        start <= end,
    ensures
        spans_well_formed(spans@, start as int, end as int),
        forall|x: int| start <= x < end ==> (spans_cover(spans@, x) <==> !gaps_cover(gaps@, x)),
{
    let sorted = sort_by_start(gaps);
    let mut spans: Vec<(i32, i32)> = Vec::new();
    let mut cursor: i32 = start;
    let mut k: usize = 0;
    while k < sorted.len()
        invariant
            k <= sorted@.len(),
            sorted_by_start(sorted@),
            start <= cursor <= end,
            spans_well_formed(spans@, start as int, cursor as int),
            spans@.len() > 0 ==> spans@.last().1 < cursor,
            spans@.len() > 0 ==> forall|j: int| k <= j < sorted@.len() ==> spans@.last().1 <= (#[trigger] sorted@[j]).0,
            forall|x: int| start <= x < cursor ==> (spans_cover(spans@, x) <==> !gaps_cover(sorted@.take(k as int), x)),
            forall|j: int, x: int| 0 <= j < k && cursor <= x < end ==> !#[trigger] gap_covers(sorted@[j], x),
        decreases sorted@.len() - k,
    {
        let g = sorted[k];
        let ghost pre0 = sorted@.take(k as int);
        let ghost pre1 = sorted@.take(k as int + 1);
        let gs = clamp_i32(g.0, start, end);
        let ge = clamp_i32(g.1, start, end);
        let ghost old_spans = spans@;
        let ghost old_cursor = cursor;
        proof {
            assert(pre1 =~= pre0.push(g));
            assert forall|x: int| #[trigger] gaps_cover(pre1, x) <==> (gaps_cover(pre0, x) || gap_covers(g, x)) by {
                if gaps_cover(pre1, x) {
                    let j = choose|j: int| 0 <= j < pre1.len() && gap_covers(pre1[j], x);
                    if j < k {
                        assert(pre0[j] == pre1[j]);
                    }
                }
                if gaps_cover(pre0, x) {
                    let j = choose|j: int| 0 <= j < pre0.len() && gap_covers(pre0[j], x);
                    assert(pre1[j] == pre0[j]);
                }
                if gap_covers(g, x) {
                    assert(pre1[k as int] == g);
                }
            }
            // Cells inside spans lie below the last span end, hence below every remaining gap start.
            assert forall|x: int| #[trigger] spans_cover(old_spans, x) implies x < g.0 by {
                let j = choose|j: int| 0 <= j < old_spans.len() && gap_covers(old_spans[j], x);
                if j < old_spans.len() - 1 {
                    assert(old_spans[j].1 < old_spans[old_spans.len() - 1].0);
                }
                assert(old_spans.last().1 <= sorted@[k as int].0);
            }
        }
        if ge <= cursor || ge <= gs {
            proof {
                assert forall|x: int| start <= x < cursor implies (spans_cover(spans@, x) <==> !gaps_cover(pre1, x)) by {
                    if gap_covers(g, x) {
                        assert(!spans_cover(old_spans, x));
                    }
                }
                assert forall|j: int, x: int| 0 <= j < k + 1 && cursor <= x < end implies !#[trigger] gap_covers(sorted@[j], x) by {
                    if j == k && gap_covers(g, x) {
                        assert(false);
                    }
                }
            }
        } else {
            if gs > cursor {
                spans.push((cursor, gs));
                proof {
                    assert(g.0 == gs);
                    assert(spans@ == old_spans.push((old_cursor, gs)));
                    assert forall|x: int| #[trigger] spans_cover(spans@, x) <==> (spans_cover(old_spans, x) || gap_covers((old_cursor, gs), x)) by {
                        if spans_cover(spans@, x) {
                            let j = choose|j: int| 0 <= j < spans@.len() && gap_covers(spans@[j], x);
                            if j < old_spans.len() {
                                assert(old_spans[j] == spans@[j]);
                            }
                        }
                        if spans_cover(old_spans, x) {
                            let j = choose|j: int| 0 <= j < old_spans.len() && gap_covers(old_spans[j], x);
                            assert(spans@[j] == old_spans[j]);
                        }
                        if gap_covers((old_cursor, gs), x) {
                            assert(spans@[old_spans.len() as int] == (old_cursor, gs));
                        }
                    }
                    assert forall|a: int, b: int| 0 <= a < b < spans@.len() implies (#[trigger] spans@[a]).1 < (#[trigger] spans@[b]).0 by {
                        if b == old_spans.len() {
                            assert(spans@[a] == old_spans[a]);
                            if a < old_spans.len() - 1 {
                                assert(old_spans[a].1 < old_spans[old_spans.len() - 1].0);
                            }
                        } else {
                            assert(spans@[a] == old_spans[a] && spans@[b] == old_spans[b]);
                        }
                    }
                    assert forall|j: int| 0 <= j < spans@.len() implies start <= (#[trigger] spans@[j]).0 < spans@[j].1 <= ge by {
                        if j < old_spans.len() {
                            assert(spans@[j] == old_spans[j]);
                        }
                    }
                }
            }
            proof {
                assert forall|x: int| start <= x < ge implies (spans_cover(spans@, x) <==> !gaps_cover(pre1, x)) by {
                    if x < old_cursor {
                        if gap_covers(g, x) {
                            assert(!spans_cover(old_spans, x));
                        }
                        if gs > old_cursor {
                            assert(!gap_covers((old_cursor, gs), x));
                        }
                    } else {
                        assert(!spans_cover(old_spans, x)) by {
                            if spans_cover(old_spans, x) {
                                let j = choose|j: int| 0 <= j < old_spans.len() && gap_covers(old_spans[j], x);
                                if j < old_spans.len() - 1 {
                                    assert(old_spans[j].1 < old_spans[old_spans.len() - 1].0);
                                }
                            }
                        }
                        assert(!gaps_cover(pre0, x)) by {
                            if gaps_cover(pre0, x) {
                                let j = choose|j: int| 0 <= j < pre0.len() && gap_covers(pre0[j], x);
                                assert(pre0[j] == sorted@[j]);
                            }
                        }
                    }
                }
                assert forall|j: int, x: int| 0 <= j < k + 1 && ge <= x < end implies !#[trigger] gap_covers(sorted@[j], x) by {}
                if spans@.len() > 0 {
                    assert forall|j: int| k + 1 <= j < sorted@.len() implies spans@.last().1 <= (#[trigger] sorted@[j]).0 by {
                        assert(sorted@[k as int].0 <= sorted@[j].0);
                    }
                }
                assert forall|j: int| 0 <= j < spans@.len() implies start <= (#[trigger] spans@[j]).0 < spans@[j].1 <= ge by {}
            }
            cursor = ge;
        }
        k = k + 1;
    }
    proof {
        assert(sorted@.take(k as int) =~= sorted@);
    }
    let ghost before = spans@;
    if cursor < end {
        spans.push((cursor, end));
        proof {
            assert(spans@ == before.push((cursor, end)));
            assert forall|a: int, b: int| 0 <= a < b < spans@.len() implies (#[trigger] spans@[a]).1 < (#[trigger] spans@[b]).0 by {
                if b == before.len() {
                    assert(spans@[a] == before[a]);
                    if a < before.len() - 1 {
                        assert(before[a].1 < before[before.len() - 1].0);
                    }
                } else {
                    assert(spans@[a] == before[a] && spans@[b] == before[b]);
                }
            }
            assert forall|j: int| 0 <= j < spans@.len() implies start <= (#[trigger] spans@[j]).0 < spans@[j].1 <= end by {
                if j < before.len() {
                    assert(spans@[j] == before[j]);
                }
            }
        }
    }
    proof {
        assert forall|x: int| #[trigger] gaps_cover(sorted@, x) <==> gaps_cover(gaps@, x) by {
            if gaps_cover(sorted@, x) {
                let j = choose|j: int| 0 <= j < sorted@.len() && gap_covers(sorted@[j], x);
                assert(sorted@.contains(sorted@[j]));
                assert(gaps@.contains(sorted@[j]));
                let m = choose|m: int| 0 <= m < gaps@.len() && gaps@[m] == sorted@[j];
                assert(gap_covers(gaps@[m], x));
            }
            if gaps_cover(gaps@, x) {
                let j = choose|j: int| 0 <= j < gaps@.len() && gap_covers(gaps@[j], x);
                assert(gaps@.contains(gaps@[j]));
                assert(sorted@.contains(gaps@[j]));
                let m = choose|m: int| 0 <= m < sorted@.len() && sorted@[m] == gaps@[j];
                assert(gap_covers(sorted@[m], x));
            }
        }
        assert forall|x: int| start <= x < end implies (spans_cover(spans@, x) <==> !gaps_cover(gaps@, x)) by {
            if x >= cursor {
                assert(cursor < end);
                assert(spans@[spans@.len() - 1] == (cursor, end));
                assert(gap_covers(spans@[spans@.len() - 1], x));
                assert(spans_cover(spans@, x));
                if gaps_cover(sorted@, x) {
                    let j = choose|j: int| 0 <= j < sorted@.len() && gap_covers(sorted@[j], x);
                    assert(!gap_covers(sorted@[j], x));
                }
            } else {
                assert(spans_cover(before, x) <==> !gaps_cover(sorted@, x));
                if spans_cover(spans@, x) {
                    let j = choose|j: int| 0 <= j < spans@.len() && gap_covers(spans@[j], x);
                    if j < before.len() {
                        assert(before[j] == spans@[j]);
                    }
                    assert(spans_cover(before, x));
                }
                if spans_cover(before, x) {
                    let j = choose|j: int| 0 <= j < before.len() && gap_covers(before[j], x);
                    assert(spans@[j] == before[j]);
                    assert(spans_cover(spans@, x));
                }
            }
        }
    }
    spans
}


// ---------------------------------------------------------------------------
// Doorway spans

/// The stretch of wall a doorway opens, as offsets along that wall.
pub open spec fn door_span(door: Doorway) -> (int, int) {
    (door.offset - door.width / 2, door.offset + door.width / 2)
}

/// The openings of one wall of a room, in door order.
pub open spec fn spec_doorway_spans(doors: Seq<Doorway>, side: Side) -> Seq<(i32, i32)>
    decreases doors.len(),
{
    if doors.len() == 0 {
        Seq::empty()
    } else {
        let rest = spec_doorway_spans(doors.drop_last(), side);
        let d = doors.last();
        if d.side == side {
            rest.push(((d.offset - d.width / 2) as i32, (d.offset + d.width / 2) as i32))
        } else {
            rest
        }
    }
}

/// Door widths are even, so a doorway is centered on whole coordinates;
/// offsets and widths are small.
pub open spec fn doors_well_formed(doors: Seq<Doorway>) -> bool {
    forall|k: int| 0 <= k < doors.len() ==> {
        &&& (#[trigger] doors[k]).width % 2 == 0
        &&& 0 <= doors[k].width <= 100_000
        &&& -100_000 <= doors[k].offset <= 100_000
    }
}

/// The openings that the room's doorways cut into one wall.
pub fn doorway_spans(room: &RoomSpec, side: Side) -> (r: Vec<(i32, i32)>)
    requires
        doors_well_formed(room.doors@),
    ensures
        r@ == spec_doorway_spans(room.doors@, side),
{
    let mut r: Vec<(i32, i32)> = Vec::new();
    let mut k: usize = 0;
    while k < room.doors.len()
        invariant
            k <= room.doors@.len(),
            doors_well_formed(room.doors@),
            r@ == spec_doorway_spans(room.doors@.take(k as int), side),
        decreases room.doors@.len() - k,
    {
        proof {
            assert(room.doors@.take(k as int + 1).drop_last() =~= room.doors@.take(k as int));
        }
        let d = room.doors[k];
        if d.side == side {
            r.push((d.offset - d.width / 2, d.offset + d.width / 2));
        }
        k = k + 1;
    }
    proof {
        assert(room.doors@.take(room.doors@.len() as int) =~= room.doors@);
    }
    r
}

// ---------------------------------------------------------------------------
// Navigation graph

/// Edge `e` joins nodes `a` and `b` (either direction).
pub open spec fn nav_edge_joins(e: int, a: int, b: int) -> bool {
    &&& 0 <= e < spec_nav_edges().len()
    &&& (spec_nav_edges()[e].0 as int == a && spec_nav_edges()[e].1 as int == b)
        || (spec_nav_edges()[e].0 as int == b && spec_nav_edges()[e].1 as int == a)
}

/// Some edge joins the two nodes.
pub open spec fn nav_adjacent(a: int, b: int) -> bool {
    exists|e: int| #[trigger] nav_edge_joins(e, a, b)
}

/// A walk through the navigation graph.
pub open spec fn is_nav_path(p: Seq<int>) -> bool {
    &&& p.len() > 0
    &&& forall|k: int| 0 <= k < p.len() - 1 ==> nav_adjacent(#[trigger] p[k], p[k + 1])
}

/// Node `to` can be reached from node `from`.
pub open spec fn nav_reachable(from: int, to: int) -> bool {
    exists|p: Seq<int>| #[trigger] is_nav_path(p) && p[0] == from && p.last() == to
}

// ---------------------------------------------------------------------------
// Properties of the layout

/// Every doorway of the layout opens onto a corridor.
pub proof fn lemma_every_door_connects_to_a_corridor()
    ensures
        forall|i: int, k: int| 0 <= i < spec_rooms().len() && 0 <= k < spec_rooms()[i].doors.len()
            ==> door_connects(spec_rooms()[i], #[trigger] spec_rooms()[i].doors[k]),
{
    assert(door_meets_corridor(spec_rooms()[0], spec_rooms()[0].doors[0], spec_corridors()[0]));
    assert(door_meets_corridor(spec_rooms()[0], spec_rooms()[0].doors[1], spec_corridors()[1]));
    assert(door_meets_corridor(spec_rooms()[0], spec_rooms()[0].doors[2], spec_corridors()[2]));
    assert(door_meets_corridor(spec_rooms()[0], spec_rooms()[0].doors[3], spec_corridors()[3]));
    assert(door_meets_corridor(spec_rooms()[0], spec_rooms()[0].doors[4], spec_corridors()[6]));
    assert(door_meets_corridor(spec_rooms()[0], spec_rooms()[0].doors[5], spec_corridors()[7]));
    assert(door_meets_corridor(spec_rooms()[1], spec_rooms()[1].doors[0], spec_corridors()[0]));
    assert(door_meets_corridor(spec_rooms()[1], spec_rooms()[1].doors[1], spec_corridors()[4]));
    assert(door_meets_corridor(spec_rooms()[2], spec_rooms()[2].doors[0], spec_corridors()[2]));
    assert(door_meets_corridor(spec_rooms()[2], spec_rooms()[2].doors[1], spec_corridors()[5]));
    assert(door_meets_corridor(spec_rooms()[3], spec_rooms()[3].doors[0], spec_corridors()[1]));
    assert(door_meets_corridor(spec_rooms()[3], spec_rooms()[3].doors[1], spec_corridors()[4]));
    assert(door_meets_corridor(spec_rooms()[4], spec_rooms()[4].doors[0], spec_corridors()[3]));
    assert(door_meets_corridor(spec_rooms()[4], spec_rooms()[4].doors[1], spec_corridors()[5]));
    assert(door_meets_corridor(spec_rooms()[5], spec_rooms()[5].doors[0], spec_corridors()[6]));
    assert(door_meets_corridor(spec_rooms()[6], spec_rooms()[6].doors[0], spec_corridors()[7]));
    assert forall|i: int, k: int| 0 <= i < spec_rooms().len() && 0 <= k < spec_rooms()[i].doors.len()
        implies door_connects(spec_rooms()[i], #[trigger] spec_rooms()[i].doors[k]) by {
        assert(0 <= i < 7);
    }
}

/// Task consoles, sabotage consoles, the emergency button and spawn points
/// all stand on the floor of a room or corridor.
pub proof fn lemma_every_fixture_is_on_the_floor()
    ensures
        forall|i: int| 0 <= i < spec_task_stations().len() ==> spec_point_inside_room_or_corridor(#[trigger] spec_task_stations()[i].position),
        forall|i: int| 0 <= i < spec_oxygen_stations().len() ==> spec_point_inside_room_or_corridor(#[trigger] spec_oxygen_stations()[i]),
        forall|i: int| 0 <= i < spec_reactor_stations().len() ==> spec_point_inside_room_or_corridor(#[trigger] spec_reactor_stations()[i]),
        spec_point_inside_room_or_corridor(spec_lights_station()),
        spec_point_inside_room_or_corridor(spec_emergency_button()),
        forall|i: int| 0 <= i < spec_player_spawns().len() ==> spec_point_inside_room_or_corridor(#[trigger] spec_player_spawns()[i]),
{
    assert(inside_rect(spec_task_stations()[0].position, spec_rooms()[1].center, spec_rooms()[1].size, 0));
    assert(inside_rect(spec_task_stations()[1].position, spec_rooms()[1].center, spec_rooms()[1].size, 0));
    assert(inside_rect(spec_task_stations()[2].position, spec_rooms()[2].center, spec_rooms()[2].size, 0));
    assert(inside_rect(spec_task_stations()[3].position, spec_rooms()[2].center, spec_rooms()[2].size, 0));
    assert(inside_rect(spec_task_stations()[4].position, spec_rooms()[3].center, spec_rooms()[3].size, 0));
    assert(inside_rect(spec_task_stations()[5].position, spec_rooms()[3].center, spec_rooms()[3].size, 0));
    assert(inside_rect(spec_task_stations()[6].position, spec_rooms()[4].center, spec_rooms()[4].size, 0));
    assert(inside_rect(spec_task_stations()[7].position, spec_rooms()[4].center, spec_rooms()[4].size, 0));
    assert(inside_rect(spec_task_stations()[8].position, spec_rooms()[5].center, spec_rooms()[5].size, 0));
    assert(inside_rect(spec_task_stations()[9].position, spec_rooms()[6].center, spec_rooms()[6].size, 0));
    assert(inside_rect(spec_oxygen_stations()[0], spec_rooms()[2].center, spec_rooms()[2].size, 0));
    assert(inside_rect(spec_oxygen_stations()[1], spec_rooms()[4].center, spec_rooms()[4].size, 0));
    assert(inside_rect(spec_reactor_stations()[0], spec_rooms()[3].center, spec_rooms()[3].size, 0));
    assert(inside_rect(spec_reactor_stations()[1], spec_rooms()[3].center, spec_rooms()[3].size, 0));
    assert(inside_rect(spec_lights_station(), spec_rooms()[5].center, spec_rooms()[5].size, 0));
    assert(inside_rect(spec_emergency_button(), spec_rooms()[0].center, spec_rooms()[0].size, 0));
    assert(inside_rect(spec_player_spawns()[0], spec_rooms()[0].center, spec_rooms()[0].size, 0));
    assert(inside_rect(spec_player_spawns()[1], spec_rooms()[0].center, spec_rooms()[0].size, 0));
    assert(inside_rect(spec_player_spawns()[2], spec_rooms()[0].center, spec_rooms()[0].size, 0));
    assert(inside_rect(spec_player_spawns()[3], spec_rooms()[0].center, spec_rooms()[0].size, 0));
    assert(inside_rect(spec_player_spawns()[4], spec_rooms()[0].center, spec_rooms()[0].size, 0));
    assert(inside_rect(spec_player_spawns()[5], spec_rooms()[0].center, spec_rooms()[0].size, 0));
    assert(inside_rect(spec_player_spawns()[6], spec_rooms()[0].center, spec_rooms()[0].size, 0));
    assert(inside_rect(spec_player_spawns()[7], spec_rooms()[0].center, spec_rooms()[0].size, 0));
    assert(inside_rect(spec_player_spawns()[8], spec_rooms()[0].center, spec_rooms()[0].size, 0));
    assert(inside_rect(spec_player_spawns()[9], spec_rooms()[0].center, spec_rooms()[0].size, 0));
    assert forall|i: int| 0 <= i < spec_task_stations().len() implies spec_point_inside_room_or_corridor(#[trigger] spec_task_stations()[i].position) by {
        assert(0 <= i < 10);
    }
    assert forall|i: int| 0 <= i < spec_player_spawns().len() implies spec_point_inside_room_or_corridor(#[trigger] spec_player_spawns()[i]) by {
        assert(0 <= i < 10);
    }
}

/// Every corridor is wider than a player's diameter plus a 12-unit margin.
pub proof fn lemma_corridors_wider_than_player()
    ensures
        forall|j: int| 0 <= j < spec_corridors().len() ==> spec_corridor_width(#[trigger] spec_corridors()[j]) > 2 * PLAYER_RADIUS + 12,
{
    assert forall|j: int| 0 <= j < spec_corridors().len() implies spec_corridor_width(#[trigger] spec_corridors()[j]) > 2 * PLAYER_RADIUS + 12 by {
        assert(0 <= j < 8);
    }
}

/// Every room the map builder spawns lies within the movement bounds.
pub proof fn lemma_rooms_inside_map_bounds()
    ensures
        forall|i: int| 0 <= i < spec_map_rooms().len() ==> {
            let r = #[trigger] spec_map_rooms()[i];
            &&& 2 * r.center.x - r.size.x >= -2 * MAP_HALF_WIDTH
            &&& 2 * r.center.x + r.size.x <= 2 * MAP_HALF_WIDTH
            &&& 2 * r.center.y - r.size.y >= -2 * MAP_HALF_HEIGHT
            &&& 2 * r.center.y + r.size.y <= 2 * MAP_HALF_HEIGHT
        },
{
    assert forall|i: int| 0 <= i < spec_map_rooms().len() implies {
        let r = #[trigger] spec_map_rooms()[i];
        &&& 2 * r.center.x - r.size.x >= -2 * MAP_HALF_WIDTH
        &&& 2 * r.center.x + r.size.x <= 2 * MAP_HALF_WIDTH
        &&& 2 * r.center.y - r.size.y >= -2 * MAP_HALF_HEIGHT
        &&& 2 * r.center.y + r.size.y <= 2 * MAP_HALF_HEIGHT
    } by {
        assert(0 <= i < 7);
    }
}

/// Every doorway the map builder cuts is wider than a player.
pub proof fn lemma_doors_wider_than_player()
    ensures
        forall|i: int, k: int| 0 <= i < spec_map_rooms().len() && 0 <= k < spec_map_rooms()[i].doors.len()
            ==> (#[trigger] spec_map_rooms()[i].doors[k]).width > 2 * PLAYER_RADIUS,
{
    assert forall|i: int, k: int| 0 <= i < spec_map_rooms().len() && 0 <= k < spec_map_rooms()[i].doors.len()
        implies (#[trigger] spec_map_rooms()[i].doors[k]).width > 2 * PLAYER_RADIUS by {
        assert(0 <= i < 7);
    }
}

/// Every navigation node lies within the movement bounds.
pub proof fn lemma_nav_nodes_inside_map()
    ensures
        forall|n: int| 0 <= n < spec_nav_nodes().len() ==> {
            let p = #[trigger] spec_nav_nodes()[n];
            -MAP_HALF_WIDTH <= p.x <= MAP_HALF_WIDTH && -MAP_HALF_HEIGHT <= p.y <= MAP_HALF_HEIGHT
        },
{
    assert forall|n: int| 0 <= n < spec_nav_nodes().len() implies {
        let p = #[trigger] spec_nav_nodes()[n];
        -MAP_HALF_WIDTH <= p.x <= MAP_HALF_WIDTH && -MAP_HALF_HEIGHT <= p.y <= MAP_HALF_HEIGHT
    } by {
        assert(0 <= n < 22);
    }
}

/// Every edge joins two existing nodes.
pub proof fn lemma_nav_edges_in_range()
    ensures
        forall|e: int| 0 <= e < spec_nav_edges().len() ==> (#[trigger] spec_nav_edges()[e]).0 < spec_nav_nodes().len() && spec_nav_edges()[e].1 < spec_nav_nodes().len(),
{
    assert forall|e: int| 0 <= e < spec_nav_edges().len() implies (#[trigger] spec_nav_edges()[e]).0 < spec_nav_nodes().len() && spec_nav_edges()[e].1 < spec_nav_nodes().len() by {
        assert(0 <= e < 24);
    }
}

/// The navigation graph is connected: every node is reachable from node 0.
pub proof fn lemma_nav_graph_connected()
    ensures
        forall|n: int| 0 <= n < spec_nav_nodes().len() ==> #[trigger] nav_reachable(0, n),
{
    let p0 = seq![0int];
    assert(is_nav_path(p0) && p0[0] == 0 && p0.last() == 0);
    let p1 = seq![0int, 18int, 2int, 20int, 1int];
    assert(nav_edge_joins(0, p1[0], p1[1]));
    assert(nav_edge_joins(4, p1[1], p1[2]));
    assert(nav_edge_joins(5, p1[2], p1[3]));
    assert(nav_edge_joins(2, p1[3], p1[4]));
    assert(is_nav_path(p1) && p1[0] == 0 && p1.last() == 1);
    let p2 = seq![0int, 18int, 2int];
    assert(nav_edge_joins(0, p2[0], p2[1]));
    assert(nav_edge_joins(4, p2[1], p2[2]));
    assert(is_nav_path(p2) && p2[0] == 0 && p2.last() == 2);
    let p3 = seq![0int, 19int, 3int];
    assert(nav_edge_joins(1, p3[0], p3[1]));
    assert(nav_edge_joins(6, p3[1], p3[2]));
    assert(is_nav_path(p3) && p3[0] == 0 && p3.last() == 3);
    let p4 = seq![0int, 18int, 2int, 10int, 4int];
    assert(nav_edge_joins(0, p4[0], p4[1]));
    assert(nav_edge_joins(4, p4[1], p4[2]));
    assert(nav_edge_joins(12, p4[2], p4[3]));
    assert(nav_edge_joins(13, p4[3], p4[4]));
    assert(is_nav_path(p4) && p4[0] == 0 && p4.last() == 4);
    let p5 = seq![0int, 19int, 3int, 12int, 5int];
    assert(nav_edge_joins(1, p5[0], p5[1]));
    assert(nav_edge_joins(6, p5[1], p5[2]));
    assert(nav_edge_joins(16, p5[2], p5[3]));
    assert(nav_edge_joins(17, p5[3], p5[4]));
    assert(is_nav_path(p5) && p5[0] == 0 && p5.last() == 5);
    let p6 = seq![0int, 18int, 2int, 11int, 6int];
    assert(nav_edge_joins(0, p6[0], p6[1]));
    assert(nav_edge_joins(4, p6[1], p6[2]));
    assert(nav_edge_joins(14, p6[2], p6[3]));
    assert(nav_edge_joins(15, p6[3], p6[4]));
    assert(is_nav_path(p6) && p6[0] == 0 && p6.last() == 6);
    let p7 = seq![0int, 19int, 3int, 13int, 7int];
    assert(nav_edge_joins(1, p7[0], p7[1]));
    assert(nav_edge_joins(6, p7[1], p7[2]));
    assert(nav_edge_joins(18, p7[2], p7[3]));
    assert(nav_edge_joins(19, p7[3], p7[4]));
    assert(is_nav_path(p7) && p7[0] == 0 && p7.last() == 7);
    let p8 = seq![0int, 14int, 8int];
    assert(nav_edge_joins(8, p8[0], p8[1]));
    assert(nav_edge_joins(9, p8[1], p8[2]));
    assert(is_nav_path(p8) && p8[0] == 0 && p8.last() == 8);
    let p9 = seq![0int, 18int, 2int, 20int, 1int, 15int, 9int];
    assert(nav_edge_joins(0, p9[0], p9[1]));
    assert(nav_edge_joins(4, p9[1], p9[2]));
    assert(nav_edge_joins(5, p9[2], p9[3]));
    assert(nav_edge_joins(2, p9[3], p9[4]));
    assert(nav_edge_joins(10, p9[4], p9[5]));
    assert(nav_edge_joins(11, p9[5], p9[6]));
    assert(is_nav_path(p9) && p9[0] == 0 && p9.last() == 9);
    let p10 = seq![0int, 18int, 2int, 10int];
    assert(nav_edge_joins(0, p10[0], p10[1]));
    assert(nav_edge_joins(4, p10[1], p10[2]));
    assert(nav_edge_joins(12, p10[2], p10[3]));
    assert(is_nav_path(p10) && p10[0] == 0 && p10.last() == 10);
    let p11 = seq![0int, 18int, 2int, 11int];
    assert(nav_edge_joins(0, p11[0], p11[1]));
    assert(nav_edge_joins(4, p11[1], p11[2]));
    assert(nav_edge_joins(14, p11[2], p11[3]));
    assert(is_nav_path(p11) && p11[0] == 0 && p11.last() == 11);
    let p12 = seq![0int, 19int, 3int, 12int];
    assert(nav_edge_joins(1, p12[0], p12[1]));
    assert(nav_edge_joins(6, p12[1], p12[2]));
    assert(nav_edge_joins(16, p12[2], p12[3]));
    assert(is_nav_path(p12) && p12[0] == 0 && p12.last() == 12);
    let p13 = seq![0int, 19int, 3int, 13int];
    assert(nav_edge_joins(1, p13[0], p13[1]));
    assert(nav_edge_joins(6, p13[1], p13[2]));
    assert(nav_edge_joins(18, p13[2], p13[3]));
    assert(is_nav_path(p13) && p13[0] == 0 && p13.last() == 13);
    let p14 = seq![0int, 14int];
    assert(nav_edge_joins(8, p14[0], p14[1]));
    assert(is_nav_path(p14) && p14[0] == 0 && p14.last() == 14);
    let p15 = seq![0int, 18int, 2int, 20int, 1int, 15int];
    assert(nav_edge_joins(0, p15[0], p15[1]));
    assert(nav_edge_joins(4, p15[1], p15[2]));
    assert(nav_edge_joins(5, p15[2], p15[3]));
    assert(nav_edge_joins(2, p15[3], p15[4]));
    assert(nav_edge_joins(10, p15[4], p15[5]));
    assert(is_nav_path(p15) && p15[0] == 0 && p15.last() == 15);
    let p16 = seq![0int, 18int, 2int, 10int, 4int, 16int];
    assert(nav_edge_joins(0, p16[0], p16[1]));
    assert(nav_edge_joins(4, p16[1], p16[2]));
    assert(nav_edge_joins(12, p16[2], p16[3]));
    assert(nav_edge_joins(13, p16[3], p16[4]));
    assert(nav_edge_joins(20, p16[4], p16[5]));
    assert(is_nav_path(p16) && p16[0] == 0 && p16.last() == 16);
    let p17 = seq![0int, 19int, 3int, 12int, 5int, 17int];
    assert(nav_edge_joins(1, p17[0], p17[1]));
    assert(nav_edge_joins(6, p17[1], p17[2]));
    assert(nav_edge_joins(16, p17[2], p17[3]));
    assert(nav_edge_joins(17, p17[3], p17[4]));
    assert(nav_edge_joins(22, p17[4], p17[5]));
    assert(is_nav_path(p17) && p17[0] == 0 && p17.last() == 17);
    let p18 = seq![0int, 18int];
    assert(nav_edge_joins(0, p18[0], p18[1]));
    assert(is_nav_path(p18) && p18[0] == 0 && p18.last() == 18);
    let p19 = seq![0int, 19int];
    assert(nav_edge_joins(1, p19[0], p19[1]));
    assert(is_nav_path(p19) && p19[0] == 0 && p19.last() == 19);
    let p20 = seq![0int, 18int, 2int, 20int];
    assert(nav_edge_joins(0, p20[0], p20[1]));
    assert(nav_edge_joins(4, p20[1], p20[2]));
    assert(nav_edge_joins(5, p20[2], p20[3]));
    assert(is_nav_path(p20) && p20[0] == 0 && p20.last() == 20);
    let p21 = seq![0int, 19int, 3int, 21int];
    assert(nav_edge_joins(1, p21[0], p21[1]));
    assert(nav_edge_joins(6, p21[1], p21[2]));
    assert(nav_edge_joins(7, p21[2], p21[3]));
    assert(is_nav_path(p21) && p21[0] == 0 && p21.last() == 21);
    assert forall|n: int| 0 <= n < spec_nav_nodes().len() implies #[trigger] nav_reachable(0, n) by {
        assert(0 <= n < 22);
    }
}
} // verus!

use opensus::layout::{
    CorridorAxis, Point, Side, corridors, emergency_button_position, lights_station, map_bounds,
    map_floor_size, map_rooms, nav_edges, nav_nodes, oxygen_stations, player_spawns,
    point_inside_room_or_corridor, reactor_stations, rooms, split_spans, task_stations,
    PLAYER_RADIUS,
};
use opensus::net::{GAMEPLAY_PROTOCOL_VERSION, MAP_REVISION};

fn half(v: i32) -> f64 {
    v as f64 * 0.5
}

#[test]
fn only_one_map_bounds_owner_exists_by_design() {
    let bounds = map_bounds();
    assert_eq!(map_floor_size(), Point { x: bounds.x * 2, y: bounds.y * 2 });
}

#[test]
fn every_door_connects_to_a_corridor() {
    for room in rooms() {
        let hx = half(room.size.x);
        let hy = half(room.size.y);
        let (cx, cy) = (room.center.x as f64, room.center.y as f64);
        for door in room.doors.iter() {
            let off = door.offset as f64;
            let point = match door.side {
                Side::Top => (cx + off, cy + hy),
                Side::Bottom => (cx + off, cy - hy),
                Side::Left => (cx - hx, cy + off),
                Side::Right => (cx + hx, cy + off),
            };
            let connected = corridors().iter().any(|corridor| {
                let chx = half(corridor.size.x) + 1.0;
                let chy = half(corridor.size.y) + 1.0;
                let (ccx, ccy) = (corridor.center.x as f64, corridor.center.y as f64);
                point.0 >= ccx - chx && point.0 <= ccx + chx && point.1 >= ccy - chy && point.1 <= ccy + chy
            });
            assert!(connected, "{} has a door at {point:?} with no corridor", room.name);
        }
    }
}

#[test]
fn every_task_fixes_spawn_inside_room_or_corridor() {
    for station in task_stations() {
        let pos = station.position;
        assert!(point_inside_room_or_corridor(pos), "task at {pos:?} not inside");
    }
    for pos in oxygen_stations() {
        assert!(point_inside_room_or_corridor(pos), "oxygen at {pos:?} not inside");
    }
    for pos in reactor_stations() {
        assert!(point_inside_room_or_corridor(pos), "reactor at {pos:?} not inside");
    }
    assert!(point_inside_room_or_corridor(lights_station()), "lights not inside");
    assert!(point_inside_room_or_corridor(emergency_button_position()), "button not inside");
    for pos in player_spawns() {
        assert!(point_inside_room_or_corridor(pos), "spawn at {pos:?} not inside");
    }
}

#[test]
fn corridors_wider_than_player() {
    let player_radius: f32 = 14.0;
    for corridor in corridors() {
        let width = match corridor.axis {
            CorridorAxis::Horizontal => corridor.size.y,
            CorridorAxis::Vertical => corridor.size.x,
        } as f32;
        assert!(
            width > player_radius * 2.0 + 12.0,
            "corridor at {:?} width {width} too narrow",
            corridor.center
        );
    }
}

#[test]
fn navigation_graph_is_connected() {
    let nodes = nav_nodes();
    let n = nodes.len();
    let mut adj = vec![Vec::new(); n];
    for (a, b) in nav_edges() {
        adj[a].push(b);
        adj[b].push(a);
    }
    let mut visited = vec![false; n];
    let mut stack = vec![0];
    visited[0] = true;
    while let Some(cur) = stack.pop() {
        for &nb in &adj[cur] {
            if !visited[nb] {
                visited[nb] = true;
                stack.push(nb);
            }
        }
    }
    assert!(visited.iter().all(|&v| v), "nav graph not connected");
}

#[test]
fn map_revision_is_two() {
    assert_eq!(MAP_REVISION, 2);
    assert_eq!(GAMEPLAY_PROTOCOL_VERSION, 2);
}

#[test]
fn split_spans_removes_sorted_and_unsorted_gaps() {
    let spans = split_spans(-100, 100, &[(20, 40), (-40, -20)]);
    assert_eq!(spans, vec![(-100, -40), (-20, 20), (40, 100)]);
}

#[test]
fn every_room_stays_inside_map_bounds() {
    let bounds = map_bounds();
    for room in map_rooms() {
        let hx = half(room.size.x);
        let hy = half(room.size.y);
        let (cx, cy) = (room.center.x as f64, room.center.y as f64);
        assert!(cx - hx >= -(bounds.x as f64));
        assert!(cx + hx <= bounds.x as f64);
        assert!(cy - hy >= -(bounds.y as f64));
        assert!(cy + hy <= bounds.y as f64);
    }
}

#[test]
fn every_door_is_wide_enough_for_a_player() {
    for room in map_rooms() {
        for door in room.doors.iter() {
            assert!(door.width > PLAYER_RADIUS * 2);
        }
    }
}

#[test]
fn corridor_widths_clear_player_diameter() {
    for corridor in corridors() {
        let width = match corridor.axis {
            CorridorAxis::Horizontal => corridor.size.y,
            CorridorAxis::Vertical => corridor.size.x,
        };
        assert!(width > PLAYER_RADIUS * 2 + 8);
    }
}

#[test]
fn navigation_nodes_stay_inside_map() {
    let bounds = map_bounds();
    for node in nav_nodes() {
        assert!(node.x.abs() <= bounds.x);
        assert!(node.y.abs() <= bounds.y);
    }
}

#[test]
fn split_spans_without_gaps_keeps_whole_wall() {
    assert_eq!(split_spans(-50, 50, &[]), vec![(-50, 50)]);
}

#[test]
fn split_spans_clamps_gaps_to_the_wall() {
    assert_eq!(split_spans(0, 100, &[(-20, 10), (90, 130)]), vec![(10, 90)]);
}

#[test]
fn points_outside_the_floor_are_rejected() {
    let bounds = map_bounds();
    assert!(!point_inside_room_or_corridor(Point { x: bounds.x + 50, y: 0 }));
    assert!(point_inside_room_or_corridor(emergency_button_position()));
}

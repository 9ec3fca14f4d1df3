#![allow(unused_variables, unused_mut, unused_must_use, unused_imports)]

use layered_wm::spiral::SpiralLayouter;
use layered_wm::tiling::TilingWM;
use layered_wm::types::FloatOrTile;
use layered_wm::types::FloatOrTile::{Float, Tile};
use layered_wm::types::PrevOrNext::{Next, Prev};
use layered_wm::types::{Geometry, Screen, Window, WindowLayout, WindowWithInfo};

#[test]
fn spiral_should_have_an_empty_window_layout_initially() {
    let screen: Screen = Screen {
        width: 800,
        height: 600,
    };
    let screen_geom = screen.to_geometry();

    let some_geom: Geometry = Geometry {
        x: 10,
        y: 10,
        width: 100,
        height: 100,
    };

    let master_geom = Geometry {
        x: 0, y: 0,
        width: screen.width/2,
        height: screen.height,
    };
    let slave_1_of_1 = Geometry {
        x: (screen.width/2) as i32,
        y: 0,
        width: screen.width/2,
        height: screen.height,
    };

    let slave_1_of_2 = Geometry {
        x: (screen.width/2) as i32,
        y: 0,
        width: screen.width/2,
        height: screen.height/2,
    };
    let slave_2_of_2 = Geometry {
        x: (screen.width/2) as i32,
        y: (screen.height/2) as i32,
        width: screen.width/2,
        height: screen.height/2,
    };

    let slave_1_of_5 = Geometry {
        x: 400,
        y: 0,
        width: 400,
        height: 300,
    };
    let slave_2_of_5 = Geometry {
        x: 600,
        y: 300,
        width: 200,
        height: 300,
    };
    let slave_3_of_5 = Geometry {
        x: 400,
        y: 450,
        width: 200,
        height: 150,
    };
    let slave_4_of_5 = Geometry {
        x: 400,
        y: 300,
        width: 100,
        height: 150,
    };
    let slave_5_of_5 = Geometry {
        x: 500,
        y: 300,
        width: 100,
        height: 150,
    };

    let mut wm: TilingWM<SpiralLayouter> = TilingWM::new(screen);
    assert_eq!(wm.get_window_layout(), WindowLayout::new());
}

#[test]
fn spiral_add_window_should_add_a_window_correctly() {
    let screen: Screen = Screen {
        width: 800,
        height: 600,
    };
    let screen_geom = screen.to_geometry();

    let some_geom: Geometry = Geometry {
        x: 10,
        y: 10,
        width: 100,
        height: 100,
    };

    let master_geom = Geometry {
        x: 0, y: 0,
        width: screen.width/2,
        height: screen.height,
    };
    let slave_1_of_1 = Geometry {
        x: (screen.width/2) as i32,
        y: 0,
        width: screen.width/2,
        height: screen.height,
    };

    let slave_1_of_2 = Geometry {
        x: (screen.width/2) as i32,
        y: 0,
        width: screen.width/2,
        height: screen.height/2,
    };
    let slave_2_of_2 = Geometry {
        x: (screen.width/2) as i32,
        y: (screen.height/2) as i32,
        width: screen.width/2,
        height: screen.height/2,
    };

    let slave_1_of_5 = Geometry {
        x: 400,
        y: 0,
        width: 400,
        height: 300,
    };
    let slave_2_of_5 = Geometry {
        x: 600,
        y: 300,
        width: 200,
        height: 300,
    };
    let slave_3_of_5 = Geometry {
        x: 400,
        y: 450,
        width: 200,
        height: 150,
    };
    let slave_4_of_5 = Geometry {
        x: 400,
        y: 300,
        width: 100,
        height: 150,
    };
    let slave_5_of_5 = Geometry {
        x: 500,
        y: 300,
        width: 100,
        height: 150,
    };

    let mut wm: TilingWM<SpiralLayouter> = TilingWM::new(screen);
    wm.add_window(WindowWithInfo::new_tiled(1, some_geom)).unwrap();

    let wl = wm.get_window_layout();

    assert!(wm.is_managed(1));
    assert_eq!(wm.get_windows(), vec![1]);
    assert_eq!(wl.focused_window, Some(1));
    assert_eq!(wl.windows, vec![(1, screen_geom)]);
}

#[test]
fn spiral_add_window_should_not_add_a_window_twice() {
    let screen: Screen = Screen {
        width: 800,
        height: 600,
    };
    let screen_geom = screen.to_geometry();

    let some_geom: Geometry = Geometry {
        x: 10,
        y: 10,
        width: 100,
        height: 100,
    };

    let master_geom = Geometry {
        x: 0, y: 0,
        width: screen.width/2,
        height: screen.height,
    };
    let slave_1_of_1 = Geometry {
        x: (screen.width/2) as i32,
        y: 0,
        width: screen.width/2,
        height: screen.height,
    };

    let slave_1_of_2 = Geometry {
        x: (screen.width/2) as i32,
        y: 0,
        width: screen.width/2,
        height: screen.height/2,
    };
    let slave_2_of_2 = Geometry {
        x: (screen.width/2) as i32,
        y: (screen.height/2) as i32,
        width: screen.width/2,
        height: screen.height/2,
    };

    let slave_1_of_5 = Geometry {
        x: 400,
        y: 0,
        width: 400,
        height: 300,
    };
    let slave_2_of_5 = Geometry {
        x: 600,
        y: 300,
        width: 200,
        height: 300,
    };
    let slave_3_of_5 = Geometry {
        x: 400,
        y: 450,
        width: 200,
        height: 150,
    };
    let slave_4_of_5 = Geometry {
        x: 400,
        y: 300,
        width: 100,
        height: 150,
    };
    let slave_5_of_5 = Geometry {
        x: 500,
        y: 300,
        width: 100,
        height: 150,
    };

    let mut wm: TilingWM<SpiralLayouter> = TilingWM::new(screen);
    wm.add_window(WindowWithInfo::new_tiled(1, some_geom)).unwrap();
    wm.add_window(WindowWithInfo::new_tiled(1, some_geom)).unwrap();

    let wl = wm.get_window_layout();

    assert!(wm.is_managed(1));
    assert_eq!(wm.get_windows(), vec![1]);
    assert_eq!(wl.focused_window, Some(1));
    assert_eq!(wl.windows, vec![(1, screen_geom)]);
}

#[test]
fn spiral_add_window_should_add_2_windows_correctly() {
    let screen: Screen = Screen {
        width: 800,
        height: 600,
    };
    let screen_geom = screen.to_geometry();

    let some_geom: Geometry = Geometry {
        x: 10,
        y: 10,
        width: 100,
        height: 100,
    };

    let master_geom = Geometry {
        x: 0, y: 0,
        width: screen.width/2,
        height: screen.height,
    };
    let slave_1_of_1 = Geometry {
        x: (screen.width/2) as i32,
        y: 0,
        width: screen.width/2,
        height: screen.height,
    };

    let slave_1_of_2 = Geometry {
        x: (screen.width/2) as i32,
        y: 0,
        width: screen.width/2,
        height: screen.height/2,
    };
    let slave_2_of_2 = Geometry {
        x: (screen.width/2) as i32,
        y: (screen.height/2) as i32,
        width: screen.width/2,
        height: screen.height/2,
    };

    let slave_1_of_5 = Geometry {
        x: 400,
        y: 0,
        width: 400,
        height: 300,
    };
    let slave_2_of_5 = Geometry {
        x: 600,
        y: 300,
        width: 200,
        height: 300,
    };
    let slave_3_of_5 = Geometry {
        x: 400,
        y: 450,
        width: 200,
        height: 150,
    };
    let slave_4_of_5 = Geometry {
        x: 400,
        y: 300,
        width: 100,
        height: 150,
    };
    let slave_5_of_5 = Geometry {
        x: 500,
        y: 300,
        width: 100,
        height: 150,
    };

    let mut wm: TilingWM<SpiralLayouter> = TilingWM::new(screen);
    wm.add_window(WindowWithInfo::new_tiled(1, some_geom)).unwrap();
    wm.add_window(WindowWithInfo::new_tiled(2, some_geom)).unwrap();

    let wl = wm.get_window_layout();

    assert!(wm.is_managed(2));
    assert_eq!(wm.get_windows(), vec![1, 2]);
    assert_eq!(wl.focused_window, Some(2));
    assert_eq!(wl.windows, vec![(1, master_geom),(2, slave_1_of_1)]);
}

#[test]
fn spiral_add_window_should_add_3_windows_correctly() {
    let screen: Screen = Screen {
        width: 800,
        height: 600,
    };
    let screen_geom = screen.to_geometry();

    let some_geom: Geometry = Geometry {
        x: 10,
        y: 10,
        width: 100,
        height: 100,
    };

    let master_geom = Geometry {
        x: 0, y: 0,
        width: screen.width/2,
        height: screen.height,
    };
    let slave_1_of_1 = Geometry {
        x: (screen.width/2) as i32,
        y: 0,
        width: screen.width/2,
        height: screen.height,
    };

    let slave_1_of_2 = Geometry {
        x: (screen.width/2) as i32,
        y: 0,
        width: screen.width/2,
        height: screen.height/2,
    };
    let slave_2_of_2 = Geometry {
        x: (screen.width/2) as i32,
        y: (screen.height/2) as i32,
        width: screen.width/2,
        height: screen.height/2,
    };

    let slave_1_of_5 = Geometry {
        x: 400,
        y: 0,
        width: 400,
        height: 300,
    };
    let slave_2_of_5 = Geometry {
        x: 600,
        y: 300,
        width: 200,
        height: 300,
    };
    let slave_3_of_5 = Geometry {
        x: 400,
        y: 450,
        width: 200,
        height: 150,
    };
    let slave_4_of_5 = Geometry {
        x: 400,
        y: 300,
        width: 100,
        height: 150,
    };
    let slave_5_of_5 = Geometry {
        x: 500,
        y: 300,
        width: 100,
        height: 150,
    };

    let mut wm: TilingWM<SpiralLayouter> = TilingWM::new(screen);
    wm.add_window(WindowWithInfo::new_tiled(1, some_geom)).unwrap();
    wm.add_window(WindowWithInfo::new_tiled(2, some_geom)).unwrap();
    wm.add_window(WindowWithInfo::new_tiled(3, some_geom)).unwrap();

    let wl = wm.get_window_layout();
    let windows = vec![(1, master_geom),
                       (2, slave_1_of_2),
                       (3, slave_2_of_2)];

    assert!(wm.is_managed(3));
    assert_eq!(wm.get_windows(), vec![1, 2, 3]);
    assert_eq!(wl.focused_window, Some(3));
    assert_eq!(wl.windows, windows);
}

#[test]
fn spiral_add_window_should_add_6_windows_correctly() {
    let screen: Screen = Screen {
        width: 800,
        height: 600,
    };
    let screen_geom = screen.to_geometry();

    let some_geom: Geometry = Geometry {
        x: 10,
        y: 10,
        width: 100,
        height: 100,
    };

    let master_geom = Geometry {
        x: 0, y: 0,
        width: screen.width/2,
        height: screen.height,
    };
    let slave_1_of_1 = Geometry {
        x: (screen.width/2) as i32,
        y: 0,
        width: screen.width/2,
        height: screen.height,
    };

    let slave_1_of_2 = Geometry {
        x: (screen.width/2) as i32,
        y: 0,
        width: screen.width/2,
        height: screen.height/2,
    };
    let slave_2_of_2 = Geometry {
        x: (screen.width/2) as i32,
        y: (screen.height/2) as i32,
        width: screen.width/2,
        height: screen.height/2,
    };

    let slave_1_of_5 = Geometry {
        x: 400,
        y: 0,
        width: 400,
        height: 300,
    };
    let slave_2_of_5 = Geometry {
        x: 600,
        y: 300,
        width: 200,
        height: 300,
    };
    let slave_3_of_5 = Geometry {
        x: 400,
        y: 450,
        width: 200,
        height: 150,
    };
    let slave_4_of_5 = Geometry {
        x: 400,
        y: 300,
        width: 100,
        height: 150,
    };
    let slave_5_of_5 = Geometry {
        x: 500,
        y: 300,
        width: 100,
        height: 150,
    };

    let mut wm: TilingWM<SpiralLayouter> = TilingWM::new(screen);
    wm.add_window(WindowWithInfo::new_tiled(1, some_geom)).unwrap();
    wm.add_window(WindowWithInfo::new_tiled(2, some_geom)).unwrap();
    wm.add_window(WindowWithInfo::new_tiled(3, some_geom)).unwrap();
    wm.add_window(WindowWithInfo::new_tiled(4, some_geom)).unwrap();
    wm.add_window(WindowWithInfo::new_tiled(5, some_geom)).unwrap();
    wm.add_window(WindowWithInfo::new_tiled(6, some_geom)).unwrap();

    let wl = wm.get_window_layout();
    let windows = vec![(1, master_geom),
                       (2, slave_1_of_5),
                       (3, slave_2_of_5),
                       (4, slave_3_of_5),
                       (5, slave_4_of_5),
                       (6, slave_5_of_5)];

    assert_eq!(wm.get_windows(), vec![1, 2, 3, 4, 5, 6]);
    assert_eq!(wl.windows, windows);
}

#[test]
fn spiral_remove_window_should_remove_a_window_correctly() {
    let screen: Screen = Screen {
        width: 800,
        height: 600,
    };
    let screen_geom = screen.to_geometry();

    let some_geom: Geometry = Geometry {
        x: 10,
        y: 10,
        width: 100,
        height: 100,
    };

    let master_geom = Geometry {
        x: 0, y: 0,
        width: screen.width/2,
        height: screen.height,
    };
    let slave_1_of_1 = Geometry {
        x: (screen.width/2) as i32,
        y: 0,
        width: screen.width/2,
        height: screen.height,
    };

    let slave_1_of_2 = Geometry {
        x: (screen.width/2) as i32,
        y: 0,
        width: screen.width/2,
        height: screen.height/2,
    };
    let slave_2_of_2 = Geometry {
        x: (screen.width/2) as i32,
        y: (screen.height/2) as i32,
        width: screen.width/2,
        height: screen.height/2,
    };

    let slave_1_of_5 = Geometry {
        x: 400,
        y: 0,
        width: 400,
        height: 300,
    };
    let slave_2_of_5 = Geometry {
        x: 600,
        y: 300,
        width: 200,
        height: 300,
    };
    let slave_3_of_5 = Geometry {
        x: 400,
        y: 450,
        width: 200,
        height: 150,
    };
    let slave_4_of_5 = Geometry {
        x: 400,
        y: 300,
        width: 100,
        height: 150,
    };
    let slave_5_of_5 = Geometry {
        x: 500,
        y: 300,
        width: 100,
        height: 150,
    };

    let mut wm: TilingWM<SpiralLayouter> = TilingWM::new(screen);
    wm.add_window(WindowWithInfo::new_tiled(1, some_geom)).unwrap();
    wm.add_window(WindowWithInfo::new_tiled(2, some_geom)).unwrap();

    wm.remove_window(2).unwrap();

    let wl = wm.get_window_layout();
    assert!(!wm.is_managed(2));
    assert_eq!(wm.get_windows(), vec![1]);
    assert_eq!(wl.focused_window, Some(1));
    assert_eq!(wl.windows, vec![(1, screen_geom)]);
}

#[test]
fn spiral_remove_window_should_not_lose_focus_if_we_remove_another_window() {
    let screen: Screen = Screen {
        width: 800,
        height: 600,
    };
    let screen_geom = screen.to_geometry();

    let some_geom: Geometry = Geometry {
        x: 10,
        y: 10,
        width: 100,
        height: 100,
    };

    let master_geom = Geometry {
        x: 0, y: 0,
        width: screen.width/2,
        height: screen.height,
    };
    let slave_1_of_1 = Geometry {
        x: (screen.width/2) as i32,
        y: 0,
        width: screen.width/2,
        height: screen.height,
    };

    let slave_1_of_2 = Geometry {
        x: (screen.width/2) as i32,
        y: 0,
        width: screen.width/2,
        height: screen.height/2,
    };
    let slave_2_of_2 = Geometry {
        x: (screen.width/2) as i32,
        y: (screen.height/2) as i32,
        width: screen.width/2,
        height: screen.height/2,
    };

    let slave_1_of_5 = Geometry {
        x: 400,
        y: 0,
        width: 400,
        height: 300,
    };
    let slave_2_of_5 = Geometry {
        x: 600,
        y: 300,
        width: 200,
        height: 300,
    };
    let slave_3_of_5 = Geometry {
        x: 400,
        y: 450,
        width: 200,
        height: 150,
    };
    let slave_4_of_5 = Geometry {
        x: 400,
        y: 300,
        width: 100,
        height: 150,
    };
    let slave_5_of_5 = Geometry {
        x: 500,
        y: 300,
        width: 100,
        height: 150,
    };

    let mut wm: TilingWM<SpiralLayouter> = TilingWM::new(screen);
    wm.add_window(WindowWithInfo::new_tiled(1, some_geom)).unwrap();
    wm.add_window(WindowWithInfo::new_tiled(2, some_geom)).unwrap();
    wm.add_window(WindowWithInfo::new_tiled(3, some_geom)).unwrap();

    wm.remove_window(2).unwrap();

    assert!(!wm.is_managed(2));
    assert_eq!(wm.get_windows(), vec![1, 3]);
    let wl = wm.get_window_layout();
    assert_eq!(wl.focused_window, Some(3));
    assert_eq!(wm.get_focused_window(), Some(3));
    assert_eq!(wl.windows, vec![(1, master_geom),(3, slave_1_of_1)]);
}

#[test]
fn spiral_remove_window_should_do_be_in_initial_state_if_we_remove_all_windows() {
    let screen: Screen = Screen {
        width: 800,
        height: 600,
    };
    let screen_geom = screen.to_geometry();

    let some_geom: Geometry = Geometry {
        x: 10,
        y: 10,
        width: 100,
        height: 100,
    };

    let master_geom = Geometry {
        x: 0, y: 0,
        width: screen.width/2,
        height: screen.height,
    };
    let slave_1_of_1 = Geometry {
        x: (screen.width/2) as i32,
        y: 0,
        width: screen.width/2,
        height: screen.height,
    };

    let slave_1_of_2 = Geometry {
        x: (screen.width/2) as i32,
        y: 0,
        width: screen.width/2,
        height: screen.height/2,
    };
    let slave_2_of_2 = Geometry {
        x: (screen.width/2) as i32,
        y: (screen.height/2) as i32,
        width: screen.width/2,
        height: screen.height/2,
    };

    let slave_1_of_5 = Geometry {
        x: 400,
        y: 0,
        width: 400,
        height: 300,
    };
    let slave_2_of_5 = Geometry {
        x: 600,
        y: 300,
        width: 200,
        height: 300,
    };
    let slave_3_of_5 = Geometry {
        x: 400,
        y: 450,
        width: 200,
        height: 150,
    };
    let slave_4_of_5 = Geometry {
        x: 400,
        y: 300,
        width: 100,
        height: 150,
    };
    let slave_5_of_5 = Geometry {
        x: 500,
        y: 300,
        width: 100,
        height: 150,
    };

    let mut wm: TilingWM<SpiralLayouter> = TilingWM::new(screen);
    wm.add_window(WindowWithInfo::new_tiled(1, some_geom)).unwrap();
    wm.add_window(WindowWithInfo::new_tiled(2, some_geom)).unwrap();

    wm.remove_window(1).unwrap();
    wm.remove_window(2).unwrap();

    assert!(!wm.is_managed(1));
    assert!(!wm.is_managed(2));
    assert_eq!(wm.get_windows().len(), 0);

    assert_eq!(wm.get_window_layout(), WindowLayout::new());
}

#[test]
fn spiral_focus_window_should_focus_the_correct_window() {
    let screen: Screen = Screen {
        width: 800,
        height: 600,
    };
    let screen_geom = screen.to_geometry();

    let some_geom: Geometry = Geometry {
        x: 10,
        y: 10,
        width: 100,
        height: 100,
    };

    let master_geom = Geometry {
        x: 0, y: 0,
        width: screen.width/2,
        height: screen.height,
    };
    let slave_1_of_1 = Geometry {
        x: (screen.width/2) as i32,
        y: 0,
        width: screen.width/2,
        height: screen.height,
    };

    let slave_1_of_2 = Geometry {
        x: (screen.width/2) as i32,
        y: 0,
        width: screen.width/2,
        height: screen.height/2,
    };
    let slave_2_of_2 = Geometry {
        x: (screen.width/2) as i32,
        y: (screen.height/2) as i32,
        width: screen.width/2,
        height: screen.height/2,
    };

    let slave_1_of_5 = Geometry {
        x: 400,
        y: 0,
        width: 400,
        height: 300,
    };
    let slave_2_of_5 = Geometry {
        x: 600,
        y: 300,
        width: 200,
        height: 300,
    };
    let slave_3_of_5 = Geometry {
        x: 400,
        y: 450,
        width: 200,
        height: 150,
    };
    let slave_4_of_5 = Geometry {
        x: 400,
        y: 300,
        width: 100,
        height: 150,
    };
    let slave_5_of_5 = Geometry {
        x: 500,
        y: 300,
        width: 100,
        height: 150,
    };

    let mut wm: TilingWM<SpiralLayouter> = TilingWM::new(screen);
    wm.add_window(WindowWithInfo::new_tiled(1, some_geom)).unwrap();
    wm.add_window(WindowWithInfo::new_tiled(2, some_geom)).unwrap();
    wm.focus_window(Some(1)).unwrap();

    assert_eq!(wm.get_window_layout().focused_window, Some(1));
    assert_eq!(wm.get_focused_window(), Some(1));
}

#[test]
fn spiral_focus_window_should_keep_the_focus_if_already_focussed() {
    let screen: Screen = Screen {
        width: 800,
        height: 600,
    };
    let screen_geom = screen.to_geometry();

    let some_geom: Geometry = Geometry {
        x: 10,
        y: 10,
        width: 100,
        height: 100,
    };

    let master_geom = Geometry {
        x: 0, y: 0,
        width: screen.width/2,
        height: screen.height,
    };
    let slave_1_of_1 = Geometry {
        x: (screen.width/2) as i32,
        y: 0,
        width: screen.width/2,
        height: screen.height,
    };

    let slave_1_of_2 = Geometry {
        x: (screen.width/2) as i32,
        y: 0,
        width: screen.width/2,
        height: screen.height/2,
    };
    let slave_2_of_2 = Geometry {
        x: (screen.width/2) as i32,
        y: (screen.height/2) as i32,
        width: screen.width/2,
        height: screen.height/2,
    };

    let slave_1_of_5 = Geometry {
        x: 400,
        y: 0,
        width: 400,
        height: 300,
    };
    let slave_2_of_5 = Geometry {
        x: 600,
        y: 300,
        width: 200,
        height: 300,
    };
    let slave_3_of_5 = Geometry {
        x: 400,
        y: 450,
        width: 200,
        height: 150,
    };
    let slave_4_of_5 = Geometry {
        x: 400,
        y: 300,
        width: 100,
        height: 150,
    };
    let slave_5_of_5 = Geometry {
        x: 500,
        y: 300,
        width: 100,
        height: 150,
    };

    let mut wm: TilingWM<SpiralLayouter> = TilingWM::new(screen);
    wm.add_window(WindowWithInfo::new_tiled(1, some_geom)).unwrap();
    wm.add_window(WindowWithInfo::new_tiled(2, some_geom)).unwrap();
    wm.focus_window(Some(2)).unwrap();

    assert_eq!(wm.get_window_layout().focused_window, Some(2));
    assert_eq!(wm.get_focused_window(), Some(2));
}

#[test]
fn spiral_focus_window_should_lose_the_focus_if_passed_no_window() {
    let screen: Screen = Screen {
        width: 800,
        height: 600,
    };
    let screen_geom = screen.to_geometry();

    let some_geom: Geometry = Geometry {
        x: 10,
        y: 10,
        width: 100,
        height: 100,
    };

    let master_geom = Geometry {
        x: 0, y: 0,
        width: screen.width/2,
        height: screen.height,
    };
    let slave_1_of_1 = Geometry {
        x: (screen.width/2) as i32,
        y: 0,
        width: screen.width/2,
        height: screen.height,
    };

    let slave_1_of_2 = Geometry {
        x: (screen.width/2) as i32,
        y: 0,
        width: screen.width/2,
        height: screen.height/2,
    };
    let slave_2_of_2 = Geometry {
        x: (screen.width/2) as i32,
        y: (screen.height/2) as i32,
        width: screen.width/2,
        height: screen.height/2,
    };

    let slave_1_of_5 = Geometry {
        x: 400,
        y: 0,
        width: 400,
        height: 300,
    };
    let slave_2_of_5 = Geometry {
        x: 600,
        y: 300,
        width: 200,
        height: 300,
    };
    let slave_3_of_5 = Geometry {
        x: 400,
        y: 450,
        width: 200,
        height: 150,
    };
    let slave_4_of_5 = Geometry {
        x: 400,
        y: 300,
        width: 100,
        height: 150,
    };
    let slave_5_of_5 = Geometry {
        x: 500,
        y: 300,
        width: 100,
        height: 150,
    };

    let mut wm: TilingWM<SpiralLayouter> = TilingWM::new(screen);
    wm.add_window(WindowWithInfo::new_tiled(1, some_geom)).unwrap();
    wm.add_window(WindowWithInfo::new_tiled(2, some_geom)).unwrap();
    wm.focus_window(None).unwrap();

    assert_eq!(wm.get_window_layout().focused_window, None);
    assert_eq!(wm.get_focused_window(), None);
}

#[test]
fn spiral_focus_window_should_throw_error_on_unknown_window() {
    let screen: Screen = Screen {
        width: 800,
        height: 600,
    };
    let screen_geom = screen.to_geometry();

    let some_geom: Geometry = Geometry {
        x: 10,
        y: 10,
        width: 100,
        height: 100,
    };

    let master_geom = Geometry {
        x: 0, y: 0,
        width: screen.width/2,
        height: screen.height,
    };
    let slave_1_of_1 = Geometry {
        x: (screen.width/2) as i32,
        y: 0,
        width: screen.width/2,
        height: screen.height,
    };

    let slave_1_of_2 = Geometry {
        x: (screen.width/2) as i32,
        y: 0,
        width: screen.width/2,
        height: screen.height/2,
    };
    let slave_2_of_2 = Geometry {
        x: (screen.width/2) as i32,
        y: (screen.height/2) as i32,
        width: screen.width/2,
        height: screen.height/2,
    };

    let slave_1_of_5 = Geometry {
        x: 400,
        y: 0,
        width: 400,
        height: 300,
    };
    let slave_2_of_5 = Geometry {
        x: 600,
        y: 300,
        width: 200,
        height: 300,
    };
    let slave_3_of_5 = Geometry {
        x: 400,
        y: 450,
        width: 200,
        height: 150,
    };
    let slave_4_of_5 = Geometry {
        x: 400,
        y: 300,
        width: 100,
        height: 150,
    };
    let slave_5_of_5 = Geometry {
        x: 500,
        y: 300,
        width: 100,
        height: 150,
    };

    let mut wm: TilingWM<SpiralLayouter> = TilingWM::new(screen);
    wm.add_window(WindowWithInfo::new_tiled(1, some_geom)).unwrap();
    wm.add_window(WindowWithInfo::new_tiled(2, some_geom)).unwrap();
    assert!(wm.focus_window(Some(3)).is_err());
}

#[test]
fn spiral_cycle_focus_should_cycle_in_forward_direction() {
    let screen: Screen = Screen {
        width: 800,
        height: 600,
    };
    let screen_geom = screen.to_geometry();

    let some_geom: Geometry = Geometry {
        x: 10,
        y: 10,
        width: 100,
        height: 100,
    };

    let master_geom = Geometry {
        x: 0, y: 0,
        width: screen.width/2,
        height: screen.height,
    };
    let slave_1_of_1 = Geometry {
        x: (screen.width/2) as i32,
        y: 0,
        width: screen.width/2,
        height: screen.height,
    };

    let slave_1_of_2 = Geometry {
        x: (screen.width/2) as i32,
        y: 0,
        width: screen.width/2,
        height: screen.height/2,
    };
    let slave_2_of_2 = Geometry {
        x: (screen.width/2) as i32,
        y: (screen.height/2) as i32,
        width: screen.width/2,
        height: screen.height/2,
    };

    let slave_1_of_5 = Geometry {
        x: 400,
        y: 0,
        width: 400,
        height: 300,
    };
    let slave_2_of_5 = Geometry {
        x: 600,
        y: 300,
        width: 200,
        height: 300,
    };
    let slave_3_of_5 = Geometry {
        x: 400,
        y: 450,
        width: 200,
        height: 150,
    };
    let slave_4_of_5 = Geometry {
        x: 400,
        y: 300,
        width: 100,
        height: 150,
    };
    let slave_5_of_5 = Geometry {
        x: 500,
        y: 300,
        width: 100,
        height: 150,
    };

    let mut wm: TilingWM<SpiralLayouter> = TilingWM::new(screen);
    wm.add_window(WindowWithInfo::new_tiled(1, some_geom)).unwrap();
    wm.add_window(WindowWithInfo::new_tiled(2, some_geom)).unwrap();
    wm.add_window(WindowWithInfo::new_tiled(3, some_geom)).unwrap();
    wm.add_window(WindowWithInfo::new_tiled(4, some_geom)).unwrap();
    wm.cycle_focus(Next);

    assert_eq!(wm.get_focused_window(), Some(1));
}

#[test]
fn spiral_cycle_focus_should_work_in_backward_direction() {
    let screen: Screen = Screen {
        width: 800,
        height: 600,
    };
    let screen_geom = screen.to_geometry();

    let some_geom: Geometry = Geometry {
        x: 10,
        y: 10,
        width: 100,
        height: 100,
    };

    let master_geom = Geometry {
        x: 0, y: 0,
        width: screen.width/2,
        height: screen.height,
    };
    let slave_1_of_1 = Geometry {
        x: (screen.width/2) as i32,
        y: 0,
        width: screen.width/2,
        height: screen.height,
    };

    let slave_1_of_2 = Geometry {
        x: (screen.width/2) as i32,
        y: 0,
        width: screen.width/2,
        height: screen.height/2,
    };
    let slave_2_of_2 = Geometry {
        x: (screen.width/2) as i32,
        y: (screen.height/2) as i32,
        width: screen.width/2,
        height: screen.height/2,
    };

    let slave_1_of_5 = Geometry {
        x: 400,
        y: 0,
        width: 400,
        height: 300,
    };
    let slave_2_of_5 = Geometry {
        x: 600,
        y: 300,
        width: 200,
        height: 300,
    };
    let slave_3_of_5 = Geometry {
        x: 400,
        y: 450,
        width: 200,
        height: 150,
    };
    let slave_4_of_5 = Geometry {
        x: 400,
        y: 300,
        width: 100,
        height: 150,
    };
    let slave_5_of_5 = Geometry {
        x: 500,
        y: 300,
        width: 100,
        height: 150,
    };

    let mut wm: TilingWM<SpiralLayouter> = TilingWM::new(screen);
    wm.add_window(WindowWithInfo::new_tiled(1, some_geom)).unwrap();
    wm.add_window(WindowWithInfo::new_tiled(2, some_geom)).unwrap();
    wm.add_window(WindowWithInfo::new_tiled(3, some_geom)).unwrap();
    wm.add_window(WindowWithInfo::new_tiled(4, some_geom)).unwrap();
    wm.cycle_focus(Prev);

    assert_eq!(wm.get_focused_window(), Some(3));
}

#[test]
fn spiral_cycle_focus_should_cycle_in_backward_direction() {
    let screen: Screen = Screen {
        width: 800,
        height: 600,
    };
    let screen_geom = screen.to_geometry();

    let some_geom: Geometry = Geometry {
        x: 10,
        y: 10,
        width: 100,
        height: 100,
    };

    let master_geom = Geometry {
        x: 0, y: 0,
        width: screen.width/2,
        height: screen.height,
    };
    let slave_1_of_1 = Geometry {
        x: (screen.width/2) as i32,
        y: 0,
        width: screen.width/2,
        height: screen.height,
    };

    let slave_1_of_2 = Geometry {
        x: (screen.width/2) as i32,
        y: 0,
        width: screen.width/2,
        height: screen.height/2,
    };
    let slave_2_of_2 = Geometry {
        x: (screen.width/2) as i32,
        y: (screen.height/2) as i32,
        width: screen.width/2,
        height: screen.height/2,
    };

    let slave_1_of_5 = Geometry {
        x: 400,
        y: 0,
        width: 400,
        height: 300,
    };
    let slave_2_of_5 = Geometry {
        x: 600,
        y: 300,
        width: 200,
        height: 300,
    };
    let slave_3_of_5 = Geometry {
        x: 400,
        y: 450,
        width: 200,
        height: 150,
    };
    let slave_4_of_5 = Geometry {
        x: 400,
        y: 300,
        width: 100,
        height: 150,
    };
    let slave_5_of_5 = Geometry {
        x: 500,
        y: 300,
        width: 100,
        height: 150,
    };

    let mut wm: TilingWM<SpiralLayouter> = TilingWM::new(screen);
    wm.add_window(WindowWithInfo::new_tiled(1, some_geom)).unwrap();
    wm.add_window(WindowWithInfo::new_tiled(2, some_geom)).unwrap();
    wm.add_window(WindowWithInfo::new_tiled(3, some_geom)).unwrap();
    wm.add_window(WindowWithInfo::new_tiled(4, some_geom)).unwrap();
    wm.cycle_focus(Prev);
    wm.cycle_focus(Prev);
    wm.cycle_focus(Prev);
    wm.cycle_focus(Prev);

    assert_eq!(wm.get_focused_window(), Some(4));
}

#[test]
fn spiral_cycle_focus_should_not_do_anything_if_cycling_back_an_forth() {
    let screen: Screen = Screen {
        width: 800,
        height: 600,
    };
    let screen_geom = screen.to_geometry();

    let some_geom: Geometry = Geometry {
        x: 10,
        y: 10,
        width: 100,
        height: 100,
    };

    let master_geom = Geometry {
        x: 0, y: 0,
        width: screen.width/2,
        height: screen.height,
    };
    let slave_1_of_1 = Geometry {
        x: (screen.width/2) as i32,
        y: 0,
        width: screen.width/2,
        height: screen.height,
    };

    let slave_1_of_2 = Geometry {
        x: (screen.width/2) as i32,
        y: 0,
        width: screen.width/2,
        height: screen.height/2,
    };
    let slave_2_of_2 = Geometry {
        x: (screen.width/2) as i32,
        y: (screen.height/2) as i32,
        width: screen.width/2,
        height: screen.height/2,
    };

    let slave_1_of_5 = Geometry {
        x: 400,
        y: 0,
        width: 400,
        height: 300,
    };
    let slave_2_of_5 = Geometry {
        x: 600,
        y: 300,
        width: 200,
        height: 300,
    };
    let slave_3_of_5 = Geometry {
        x: 400,
        y: 450,
        width: 200,
        height: 150,
    };
    let slave_4_of_5 = Geometry {
        x: 400,
        y: 300,
        width: 100,
        height: 150,
    };
    let slave_5_of_5 = Geometry {
        x: 500,
        y: 300,
        width: 100,
        height: 150,
    };

    let mut wm: TilingWM<SpiralLayouter> = TilingWM::new(screen);
    wm.add_window(WindowWithInfo::new_tiled(1, some_geom)).unwrap();
    wm.add_window(WindowWithInfo::new_tiled(2, some_geom)).unwrap();
    wm.add_window(WindowWithInfo::new_tiled(3, some_geom)).unwrap();
    wm.add_window(WindowWithInfo::new_tiled(4, some_geom)).unwrap();
    wm.cycle_focus(Prev);
    wm.cycle_focus(Next);

    assert_eq!(wm.get_focused_window(), Some(4));
}

#[test]
fn spiral_cycle_focus_should_not_focus_on_a_window_if_none_was_selected() {
    let screen: Screen = Screen {
        width: 800,
        height: 600,
    };
    let screen_geom = screen.to_geometry();

    let some_geom: Geometry = Geometry {
        x: 10,
        y: 10,
        width: 100,
        height: 100,
    };

    let master_geom = Geometry {
        x: 0, y: 0,
        width: screen.width/2,
        height: screen.height,
    };
    let slave_1_of_1 = Geometry {
        x: (screen.width/2) as i32,
        y: 0,
        width: screen.width/2,
        height: screen.height,
    };

    let slave_1_of_2 = Geometry {
        x: (screen.width/2) as i32,
        y: 0,
        width: screen.width/2,
        height: screen.height/2,
    };
    let slave_2_of_2 = Geometry {
        x: (screen.width/2) as i32,
        y: (screen.height/2) as i32,
        width: screen.width/2,
        height: screen.height/2,
    };

    let slave_1_of_5 = Geometry {
        x: 400,
        y: 0,
        width: 400,
        height: 300,
    };
    let slave_2_of_5 = Geometry {
        x: 600,
        y: 300,
        width: 200,
        height: 300,
    };
    let slave_3_of_5 = Geometry {
        x: 400,
        y: 450,
        width: 200,
        height: 150,
    };
    let slave_4_of_5 = Geometry {
        x: 400,
        y: 300,
        width: 100,
        height: 150,
    };
    let slave_5_of_5 = Geometry {
        x: 500,
        y: 300,
        width: 100,
        height: 150,
    };

    let mut wm: TilingWM<SpiralLayouter> = TilingWM::new(screen);
    wm.add_window(WindowWithInfo::new_tiled(1, some_geom)).unwrap();
    wm.add_window(WindowWithInfo::new_tiled(2, some_geom)).unwrap();
    wm.add_window(WindowWithInfo::new_tiled(3, some_geom)).unwrap();
    wm.add_window(WindowWithInfo::new_tiled(4, some_geom)).unwrap();
    wm.focus_window(None).unwrap();

    assert_eq!(wm.get_focused_window(), None);
}

#[test]
fn spiral_cycle_focus_should_not_focus_on_a_window_if_there_are_none() {
    let screen: Screen = Screen {
        width: 800,
        height: 600,
    };
    let screen_geom = screen.to_geometry();

    let some_geom: Geometry = Geometry {
        x: 10,
        y: 10,
        width: 100,
        height: 100,
    };

    let master_geom = Geometry {
        x: 0, y: 0,
        width: screen.width/2,
        height: screen.height,
    };
    let slave_1_of_1 = Geometry {
        x: (screen.width/2) as i32,
        y: 0,
        width: screen.width/2,
        height: screen.height,
    };

    let slave_1_of_2 = Geometry {
        x: (screen.width/2) as i32,
        y: 0,
        width: screen.width/2,
        height: screen.height/2,
    };
    let slave_2_of_2 = Geometry {
        x: (screen.width/2) as i32,
        y: (screen.height/2) as i32,
        width: screen.width/2,
        height: screen.height/2,
    };

    let slave_1_of_5 = Geometry {
        x: 400,
        y: 0,
        width: 400,
        height: 300,
    };
    let slave_2_of_5 = Geometry {
        x: 600,
        y: 300,
        width: 200,
        height: 300,
    };
    let slave_3_of_5 = Geometry {
        x: 400,
        y: 450,
        width: 200,
        height: 150,
    };
    let slave_4_of_5 = Geometry {
        x: 400,
        y: 300,
        width: 100,
        height: 150,
    };
    let slave_5_of_5 = Geometry {
        x: 500,
        y: 300,
        width: 100,
        height: 150,
    };

    let mut wm: TilingWM<SpiralLayouter> = TilingWM::new(screen);
    wm.add_window(WindowWithInfo::new_tiled(1, some_geom)).unwrap();
    wm.add_window(WindowWithInfo::new_tiled(2, some_geom)).unwrap();
    wm.add_window(WindowWithInfo::new_tiled(3, some_geom)).unwrap();
    wm.add_window(WindowWithInfo::new_tiled(4, some_geom)).unwrap();
    wm.remove_window(1).unwrap();
    wm.remove_window(2).unwrap();
    wm.remove_window(3).unwrap();
    wm.remove_window(4).unwrap();

    assert_eq!(wm.get_focused_window(), None);
}

#[test]
fn spiral_get_window_info_should_work_for_the_slave_window() {
    let screen: Screen = Screen {
        width: 800,
        height: 600,
    };
    let screen_geom = screen.to_geometry();

    let some_geom: Geometry = Geometry {
        x: 10,
        y: 10,
        width: 100,
        height: 100,
    };

    let master_geom = Geometry {
        x: 0, y: 0,
        width: screen.width/2,
        height: screen.height,
    };
    let slave_1_of_1 = Geometry {
        x: (screen.width/2) as i32,
        y: 0,
        width: screen.width/2,
        height: screen.height,
    };

    let slave_1_of_2 = Geometry {
        x: (screen.width/2) as i32,
        y: 0,
        width: screen.width/2,
        height: screen.height/2,
    };
    let slave_2_of_2 = Geometry {
        x: (screen.width/2) as i32,
        y: (screen.height/2) as i32,
        width: screen.width/2,
        height: screen.height/2,
    };

    let slave_1_of_5 = Geometry {
        x: 400,
        y: 0,
        width: 400,
        height: 300,
    };
    let slave_2_of_5 = Geometry {
        x: 600,
        y: 300,
        width: 200,
        height: 300,
    };
    let slave_3_of_5 = Geometry {
        x: 400,
        y: 450,
        width: 200,
        height: 150,
    };
    let slave_4_of_5 = Geometry {
        x: 400,
        y: 300,
        width: 100,
        height: 150,
    };
    let slave_5_of_5 = Geometry {
        x: 500,
        y: 300,
        width: 100,
        height: 150,
    };

    let mut wm: TilingWM<SpiralLayouter> = TilingWM::new(screen);
    wm.add_window(WindowWithInfo::new_tiled(1, some_geom)).unwrap();
    wm.add_window(WindowWithInfo::new_tiled(2, some_geom)).unwrap();
    let info = wm.get_window_info(2).unwrap();

    assert_eq!(info, WindowWithInfo {
        window: 2,
        geometry: slave_1_of_1,
        float_or_tile: FloatOrTile::Tile,
        fullscreen: false,
    });
}

#[test]
fn spiral_get_window_info_should_work_for_a_master_window() {
    let screen: Screen = Screen {
        width: 800,
        height: 600,
    };
    let screen_geom = screen.to_geometry();

    let some_geom: Geometry = Geometry {
        x: 10,
        y: 10,
        width: 100,
        height: 100,
    };

    let master_geom = Geometry {
        x: 0, y: 0,
        width: screen.width/2,
        height: screen.height,
    };
    let slave_1_of_1 = Geometry {
        x: (screen.width/2) as i32,
        y: 0,
        width: screen.width/2,
        height: screen.height,
    };

    let slave_1_of_2 = Geometry {
        x: (screen.width/2) as i32,
        y: 0,
        width: screen.width/2,
        height: screen.height/2,
    };
    let slave_2_of_2 = Geometry {
        x: (screen.width/2) as i32,
        y: (screen.height/2) as i32,
        width: screen.width/2,
        height: screen.height/2,
    };

    let slave_1_of_5 = Geometry {
        x: 400,
        y: 0,
        width: 400,
        height: 300,
    };
    let slave_2_of_5 = Geometry {
        x: 600,
        y: 300,
        width: 200,
        height: 300,
    };
    let slave_3_of_5 = Geometry {
        x: 400,
        y: 450,
        width: 200,
        height: 150,
    };
    let slave_4_of_5 = Geometry {
        x: 400,
        y: 300,
        width: 100,
        height: 150,
    };
    let slave_5_of_5 = Geometry {
        x: 500,
        y: 300,
        width: 100,
        height: 150,
    };

    let mut wm: TilingWM<SpiralLayouter> = TilingWM::new(screen);
    wm.add_window(WindowWithInfo::new_tiled(1, some_geom)).unwrap();
    wm.add_window(WindowWithInfo::new_tiled(2, some_geom)).unwrap();
    let info = wm.get_window_info(1).unwrap();

    assert_eq!(info, WindowWithInfo {
        window: 1,
        geometry: master_geom,
        float_or_tile: FloatOrTile::Tile,
        fullscreen: false,
    });
}

#[test]
fn spiral_get_window_info_should_work_if_there_is_no_focused_window() {
    let screen: Screen = Screen {
        width: 800,
        height: 600,
    };
    let screen_geom = screen.to_geometry();

    let some_geom: Geometry = Geometry {
        x: 10,
        y: 10,
        width: 100,
        height: 100,
    };

    let master_geom = Geometry {
        x: 0, y: 0,
        width: screen.width/2,
        height: screen.height,
    };
    let slave_1_of_1 = Geometry {
        x: (screen.width/2) as i32,
        y: 0,
        width: screen.width/2,
        height: screen.height,
    };

    let slave_1_of_2 = Geometry {
        x: (screen.width/2) as i32,
        y: 0,
        width: screen.width/2,
        height: screen.height/2,
    };
    let slave_2_of_2 = Geometry {
        x: (screen.width/2) as i32,
        y: (screen.height/2) as i32,
        width: screen.width/2,
        height: screen.height/2,
    };

    let slave_1_of_5 = Geometry {
        x: 400,
        y: 0,
        width: 400,
        height: 300,
    };
    let slave_2_of_5 = Geometry {
        x: 600,
        y: 300,
        width: 200,
        height: 300,
    };
    let slave_3_of_5 = Geometry {
        x: 400,
        y: 450,
        width: 200,
        height: 150,
    };
    let slave_4_of_5 = Geometry {
        x: 400,
        y: 300,
        width: 100,
        height: 150,
    };
    let slave_5_of_5 = Geometry {
        x: 500,
        y: 300,
        width: 100,
        height: 150,
    };

    let mut wm: TilingWM<SpiralLayouter> = TilingWM::new(screen);
    wm.add_window(WindowWithInfo::new_tiled(1, some_geom)).unwrap();
    wm.add_window(WindowWithInfo::new_tiled(2, some_geom)).unwrap();
    wm.focus_window(None).unwrap();

    let info = wm.get_window_info(2).unwrap();

    assert_eq!(info, WindowWithInfo {
        window: 2,
        geometry: slave_1_of_1,
        float_or_tile: FloatOrTile::Tile,
        fullscreen: false,
    });
}

#[test]
fn spiral_get_window_info_should_error_if_the_window_is_not_managed_by_the_window_manager() {
    let screen: Screen = Screen {
        width: 800,
        height: 600,
    };
    let screen_geom = screen.to_geometry();

    let some_geom: Geometry = Geometry {
        x: 10,
        y: 10,
        width: 100,
        height: 100,
    };

    let master_geom = Geometry {
        x: 0, y: 0,
        width: screen.width/2,
        height: screen.height,
    };
    let slave_1_of_1 = Geometry {
        x: (screen.width/2) as i32,
        y: 0,
        width: screen.width/2,
        height: screen.height,
    };

    let slave_1_of_2 = Geometry {
        x: (screen.width/2) as i32,
        y: 0,
        width: screen.width/2,
        height: screen.height/2,
    };
    let slave_2_of_2 = Geometry {
        x: (screen.width/2) as i32,
        y: (screen.height/2) as i32,
        width: screen.width/2,
        height: screen.height/2,
    };

    let slave_1_of_5 = Geometry {
        x: 400,
        y: 0,
        width: 400,
        height: 300,
    };
    let slave_2_of_5 = Geometry {
        x: 600,
        y: 300,
        width: 200,
        height: 300,
    };
    let slave_3_of_5 = Geometry {
        x: 400,
        y: 450,
        width: 200,
        height: 150,
    };
    let slave_4_of_5 = Geometry {
        x: 400,
        y: 300,
        width: 100,
        height: 150,
    };
    let slave_5_of_5 = Geometry {
        x: 500,
        y: 300,
        width: 100,
        height: 150,
    };

    let mut wm: TilingWM<SpiralLayouter> = TilingWM::new(screen);
    wm.add_window(WindowWithInfo::new_tiled(1, some_geom)).unwrap();
    wm.add_window(WindowWithInfo::new_tiled(2, some_geom)).unwrap();
    let info = wm.get_window_info(3);

    assert!(info.is_err());
}

#[test]
fn spiral_get_window_info_should_work_with_1_window() {
    let screen: Screen = Screen {
        width: 800,
        height: 600,
    };
    let screen_geom = screen.to_geometry();

    let some_geom: Geometry = Geometry {
        x: 10,
        y: 10,
        width: 100,
        height: 100,
    };

    let master_geom = Geometry {
        x: 0, y: 0,
        width: screen.width/2,
        height: screen.height,
    };
    let slave_1_of_1 = Geometry {
        x: (screen.width/2) as i32,
        y: 0,
        width: screen.width/2,
        height: screen.height,
    };

    let slave_1_of_2 = Geometry {
        x: (screen.width/2) as i32,
        y: 0,
        width: screen.width/2,
        height: screen.height/2,
    };
    let slave_2_of_2 = Geometry {
        x: (screen.width/2) as i32,
        y: (screen.height/2) as i32,
        width: screen.width/2,
        height: screen.height/2,
    };

    let slave_1_of_5 = Geometry {
        x: 400,
        y: 0,
        width: 400,
        height: 300,
    };
    let slave_2_of_5 = Geometry {
        x: 600,
        y: 300,
        width: 200,
        height: 300,
    };
    let slave_3_of_5 = Geometry {
        x: 400,
        y: 450,
        width: 200,
        height: 150,
    };
    let slave_4_of_5 = Geometry {
        x: 400,
        y: 300,
        width: 100,
        height: 150,
    };
    let slave_5_of_5 = Geometry {
        x: 500,
        y: 300,
        width: 100,
        height: 150,
    };

    let mut wm: TilingWM<SpiralLayouter> = TilingWM::new(screen);
    wm.add_window(WindowWithInfo::new_tiled(1, some_geom)).unwrap();
    wm.add_window(WindowWithInfo::new_tiled(2, some_geom)).unwrap();
    wm.remove_window(2).unwrap();

    let info = wm.get_window_info(1).unwrap();

    assert_eq!(info, WindowWithInfo {
        window: 1,
        geometry: screen_geom,
        float_or_tile: FloatOrTile::Tile,
        fullscreen: false,
    });
}

#[test]
fn spiral_get_window_info_should_work_with_3_windows() {
    let screen: Screen = Screen {
        width: 800,
        height: 600,
    };
    let screen_geom = screen.to_geometry();

    let some_geom: Geometry = Geometry {
        x: 10,
        y: 10,
        width: 100,
        height: 100,
    };

    let master_geom = Geometry {
        x: 0, y: 0,
        width: screen.width/2,
        height: screen.height,
    };
    let slave_1_of_1 = Geometry {
        x: (screen.width/2) as i32,
        y: 0,
        width: screen.width/2,
        height: screen.height,
    };

    let slave_1_of_2 = Geometry {
        x: (screen.width/2) as i32,
        y: 0,
        width: screen.width/2,
        height: screen.height/2,
    };
    let slave_2_of_2 = Geometry {
        x: (screen.width/2) as i32,
        y: (screen.height/2) as i32,
        width: screen.width/2,
        height: screen.height/2,
    };

    let slave_1_of_5 = Geometry {
        x: 400,
        y: 0,
        width: 400,
        height: 300,
    };
    let slave_2_of_5 = Geometry {
        x: 600,
        y: 300,
        width: 200,
        height: 300,
    };
    let slave_3_of_5 = Geometry {
        x: 400,
        y: 450,
        width: 200,
        height: 150,
    };
    let slave_4_of_5 = Geometry {
        x: 400,
        y: 300,
        width: 100,
        height: 150,
    };
    let slave_5_of_5 = Geometry {
        x: 500,
        y: 300,
        width: 100,
        height: 150,
    };

    let mut wm: TilingWM<SpiralLayouter> = TilingWM::new(screen);
    wm.add_window(WindowWithInfo::new_tiled(1, some_geom)).unwrap();
    wm.add_window(WindowWithInfo::new_tiled(2, some_geom)).unwrap();
    wm.add_window(WindowWithInfo::new_tiled(3, some_geom)).unwrap();

    assert_eq!(wm.get_window_info(1).unwrap(), WindowWithInfo {
        window: 1,
        geometry: master_geom,
        float_or_tile: FloatOrTile::Tile,
        fullscreen: false,
    });
    assert_eq!(wm.get_window_info(2).unwrap(), WindowWithInfo {
        window: 2,
        geometry: slave_1_of_2,
        float_or_tile: FloatOrTile::Tile,
        fullscreen: false,
    });
    assert_eq!(wm.get_window_info(3).unwrap(), WindowWithInfo {
        window: 3,
        geometry: slave_2_of_2,
        float_or_tile: FloatOrTile::Tile,
        fullscreen: false,
    });
}

#[test]
fn spiral_screen_should_return_the_default_screen() {
    let screen: Screen = Screen {
        width: 800,
        height: 600,
    };
    let screen_geom = screen.to_geometry();

    let some_geom: Geometry = Geometry {
        x: 10,
        y: 10,
        width: 100,
        height: 100,
    };

    let master_geom = Geometry {
        x: 0, y: 0,
        width: screen.width/2,
        height: screen.height,
    };
    let slave_1_of_1 = Geometry {
        x: (screen.width/2) as i32,
        y: 0,
        width: screen.width/2,
        height: screen.height,
    };

    let slave_1_of_2 = Geometry {
        x: (screen.width/2) as i32,
        y: 0,
        width: screen.width/2,
        height: screen.height/2,
    };
    let slave_2_of_2 = Geometry {
        x: (screen.width/2) as i32,
        y: (screen.height/2) as i32,
        width: screen.width/2,
        height: screen.height/2,
    };

    let slave_1_of_5 = Geometry {
        x: 400,
        y: 0,
        width: 400,
        height: 300,
    };
    let slave_2_of_5 = Geometry {
        x: 600,
        y: 300,
        width: 200,
        height: 300,
    };
    let slave_3_of_5 = Geometry {
        x: 400,
        y: 450,
        width: 200,
        height: 150,
    };
    let slave_4_of_5 = Geometry {
        x: 400,
        y: 300,
        width: 100,
        height: 150,
    };
    let slave_5_of_5 = Geometry {
        x: 500,
        y: 300,
        width: 100,
        height: 150,
    };

    let mut wm: TilingWM<SpiralLayouter> = TilingWM::new(screen);
    wm.add_window(WindowWithInfo::new_tiled(1, some_geom)).unwrap();

    let new_screen = Screen {
        width: 200,
        height: 200
    };

    let master_geom = Geometry {
        x: 0, y: 0,
        width: new_screen.width/2,
        height: new_screen.height,
    };
    let slave_1_of_2 = Geometry {
        x: (new_screen.width/2) as i32,
        y: 0,
        width: new_screen.width/2,
        height: new_screen.height/2,
    };
    let slave_2_of_2 = Geometry {
        x: (new_screen.width/2) as i32,
        y: (new_screen.height/2) as i32,
        width: new_screen.width/2,
        height: new_screen.height/2,
    };
    assert_eq!(wm.get_screen(), screen);
}

#[test]
fn spiral_screen_should_return_the_new_screen_if_one_is_provided() {
    let screen: Screen = Screen {
        width: 800,
        height: 600,
    };
    let screen_geom = screen.to_geometry();

    let some_geom: Geometry = Geometry {
        x: 10,
        y: 10,
        width: 100,
        height: 100,
    };

    let master_geom = Geometry {
        x: 0, y: 0,
        width: screen.width/2,
        height: screen.height,
    };
    let slave_1_of_1 = Geometry {
        x: (screen.width/2) as i32,
        y: 0,
        width: screen.width/2,
        height: screen.height,
    };

    let slave_1_of_2 = Geometry {
        x: (screen.width/2) as i32,
        y: 0,
        width: screen.width/2,
        height: screen.height/2,
    };
    let slave_2_of_2 = Geometry {
        x: (screen.width/2) as i32,
        y: (screen.height/2) as i32,
        width: screen.width/2,
        height: screen.height/2,
    };

    let slave_1_of_5 = Geometry {
        x: 400,
        y: 0,
        width: 400,
        height: 300,
    };
    let slave_2_of_5 = Geometry {
        x: 600,
        y: 300,
        width: 200,
        height: 300,
    };
    let slave_3_of_5 = Geometry {
        x: 400,
        y: 450,
        width: 200,
        height: 150,
    };
    let slave_4_of_5 = Geometry {
        x: 400,
        y: 300,
        width: 100,
        height: 150,
    };
    let slave_5_of_5 = Geometry {
        x: 500,
        y: 300,
        width: 100,
        height: 150,
    };

    let mut wm: TilingWM<SpiralLayouter> = TilingWM::new(screen);
    wm.add_window(WindowWithInfo::new_tiled(1, some_geom)).unwrap();

    let new_screen = Screen {
        width: 200,
        height: 200
    };

    let master_geom = Geometry {
        x: 0, y: 0,
        width: new_screen.width/2,
        height: new_screen.height,
    };
    let slave_1_of_2 = Geometry {
        x: (new_screen.width/2) as i32,
        y: 0,
        width: new_screen.width/2,
        height: new_screen.height/2,
    };
    let slave_2_of_2 = Geometry {
        x: (new_screen.width/2) as i32,
        y: (new_screen.height/2) as i32,
        width: new_screen.width/2,
        height: new_screen.height/2,
    };
    wm.resize_screen(new_screen);

    assert_eq!(wm.get_screen(), new_screen);
}

#[test]
fn spiral_screen_should_use_the_new_screen_in_get_window_layout_if_there_is_1_window() {
    let screen: Screen = Screen {
        width: 800,
        height: 600,
    };
    let screen_geom = screen.to_geometry();

    let some_geom: Geometry = Geometry {
        x: 10,
        y: 10,
        width: 100,
        height: 100,
    };

    let master_geom = Geometry {
        x: 0, y: 0,
        width: screen.width/2,
        height: screen.height,
    };
    let slave_1_of_1 = Geometry {
        x: (screen.width/2) as i32,
        y: 0,
        width: screen.width/2,
        height: screen.height,
    };

    let slave_1_of_2 = Geometry {
        x: (screen.width/2) as i32,
        y: 0,
        width: screen.width/2,
        height: screen.height/2,
    };
    let slave_2_of_2 = Geometry {
        x: (screen.width/2) as i32,
        y: (screen.height/2) as i32,
        width: screen.width/2,
        height: screen.height/2,
    };

    let slave_1_of_5 = Geometry {
        x: 400,
        y: 0,
        width: 400,
        height: 300,
    };
    let slave_2_of_5 = Geometry {
        x: 600,
        y: 300,
        width: 200,
        height: 300,
    };
    let slave_3_of_5 = Geometry {
        x: 400,
        y: 450,
        width: 200,
        height: 150,
    };
    let slave_4_of_5 = Geometry {
        x: 400,
        y: 300,
        width: 100,
        height: 150,
    };
    let slave_5_of_5 = Geometry {
        x: 500,
        y: 300,
        width: 100,
        height: 150,
    };

    let mut wm: TilingWM<SpiralLayouter> = TilingWM::new(screen);
    wm.add_window(WindowWithInfo::new_tiled(1, some_geom)).unwrap();

    let new_screen = Screen {
        width: 200,
        height: 200
    };

    let master_geom = Geometry {
        x: 0, y: 0,
        width: new_screen.width/2,
        height: new_screen.height,
    };
    let slave_1_of_2 = Geometry {
        x: (new_screen.width/2) as i32,
        y: 0,
        width: new_screen.width/2,
        height: new_screen.height/2,
    };
    let slave_2_of_2 = Geometry {
        x: (new_screen.width/2) as i32,
        y: (new_screen.height/2) as i32,
        width: new_screen.width/2,
        height: new_screen.height/2,
    };
    wm.resize_screen(new_screen);

    let wl = wm.get_window_layout();

    assert_eq!(wl.windows.first().unwrap().1, new_screen.to_geometry());
}

#[test]
fn spiral_screen_should_use_the_new_screen_in_get_window_layout_if_there_are_more_windows() {
    let screen: Screen = Screen {
        width: 800,
        height: 600,
    };
    let screen_geom = screen.to_geometry();

    let some_geom: Geometry = Geometry {
        x: 10,
        y: 10,
        width: 100,
        height: 100,
    };

    let master_geom = Geometry {
        x: 0, y: 0,
        width: screen.width/2,
        height: screen.height,
    };
    let slave_1_of_1 = Geometry {
        x: (screen.width/2) as i32,
        y: 0,
        width: screen.width/2,
        height: screen.height,
    };

    let slave_1_of_2 = Geometry {
        x: (screen.width/2) as i32,
        y: 0,
        width: screen.width/2,
        height: screen.height/2,
    };
    let slave_2_of_2 = Geometry {
        x: (screen.width/2) as i32,
        y: (screen.height/2) as i32,
        width: screen.width/2,
        height: screen.height/2,
    };

    let slave_1_of_5 = Geometry {
        x: 400,
        y: 0,
        width: 400,
        height: 300,
    };
    let slave_2_of_5 = Geometry {
        x: 600,
        y: 300,
        width: 200,
        height: 300,
    };
    let slave_3_of_5 = Geometry {
        x: 400,
        y: 450,
        width: 200,
        height: 150,
    };
    let slave_4_of_5 = Geometry {
        x: 400,
        y: 300,
        width: 100,
        height: 150,
    };
    let slave_5_of_5 = Geometry {
        x: 500,
        y: 300,
        width: 100,
        height: 150,
    };

    let mut wm: TilingWM<SpiralLayouter> = TilingWM::new(screen);
    wm.add_window(WindowWithInfo::new_tiled(1, some_geom)).unwrap();

    let new_screen = Screen {
        width: 200,
        height: 200
    };

    let master_geom = Geometry {
        x: 0, y: 0,
        width: new_screen.width/2,
        height: new_screen.height,
    };
    let slave_1_of_2 = Geometry {
        x: (new_screen.width/2) as i32,
        y: 0,
        width: new_screen.width/2,
        height: new_screen.height/2,
    };
    let slave_2_of_2 = Geometry {
        x: (new_screen.width/2) as i32,
        y: (new_screen.height/2) as i32,
        width: new_screen.width/2,
        height: new_screen.height/2,
    };
    wm.add_window(WindowWithInfo::new_tiled(2, some_geom)).unwrap();
    wm.add_window(WindowWithInfo::new_tiled(3, some_geom)).unwrap();

    wm.resize_screen(new_screen);

    let wl = wm.get_window_layout();
    let expected = vec![(1, master_geom),
                        (2, slave_1_of_2),
                        (3,slave_2_of_2)];
    assert_eq!(wl.windows, expected);
}

#[test]
fn spiral_tiling_support_get_master_window_should_return_the_master_window_if_there_is_one() {
    let screen: Screen = Screen {
        width: 800,
        height: 600,
    };
    let screen_geom = screen.to_geometry();

    let some_geom: Geometry = Geometry {
        x: 10,
        y: 10,
        width: 100,
        height: 100,
    };

    let master_geom = Geometry {
        x: 0, y: 0,
        width: screen.width/2,
        height: screen.height,
    };
    let slave_1_of_1 = Geometry {
        x: (screen.width/2) as i32,
        y: 0,
        width: screen.width/2,
        height: screen.height,
    };

    let slave_1_of_2 = Geometry {
        x: (screen.width/2) as i32,
        y: 0,
        width: screen.width/2,
        height: screen.height/2,
    };
    let slave_2_of_2 = Geometry {
        x: (screen.width/2) as i32,
        y: (screen.height/2) as i32,
        width: screen.width/2,
        height: screen.height/2,
    };

    let slave_1_of_5 = Geometry {
        x: 400,
        y: 0,
        width: 400,
        height: 300,
    };
    let slave_2_of_5 = Geometry {
        x: 600,
        y: 300,
        width: 200,
        height: 300,
    };
    let slave_3_of_5 = Geometry {
        x: 400,
        y: 450,
        width: 200,
        height: 150,
    };
    let slave_4_of_5 = Geometry {
        x: 400,
        y: 300,
        width: 100,
        height: 150,
    };
    let slave_5_of_5 = Geometry {
        x: 500,
        y: 300,
        width: 100,
        height: 150,
    };

    let mut wm: TilingWM<SpiralLayouter> = TilingWM::new(screen);
    wm.add_window(WindowWithInfo::new_tiled(1, some_geom)).unwrap();
    wm.add_window(WindowWithInfo::new_tiled(2, some_geom)).unwrap();
    wm.add_window(WindowWithInfo::new_tiled(3, some_geom)).unwrap();

    let master = wm.get_master_window();

    assert_eq!(master, Some(1));
}

#[test]
fn spiral_tiling_support_get_master_window_should_return_none_if_there_is_no_master_window() {
    let screen: Screen = Screen {
        width: 800,
        height: 600,
    };
    let screen_geom = screen.to_geometry();

    let some_geom: Geometry = Geometry {
        x: 10,
        y: 10,
        width: 100,
        height: 100,
    };

    let master_geom = Geometry {
        x: 0, y: 0,
        width: screen.width/2,
        height: screen.height,
    };
    let slave_1_of_1 = Geometry {
        x: (screen.width/2) as i32,
        y: 0,
        width: screen.width/2,
        height: screen.height,
    };

    let slave_1_of_2 = Geometry {
        x: (screen.width/2) as i32,
        y: 0,
        width: screen.width/2,
        height: screen.height/2,
    };
    let slave_2_of_2 = Geometry {
        x: (screen.width/2) as i32,
        y: (screen.height/2) as i32,
        width: screen.width/2,
        height: screen.height/2,
    };

    let slave_1_of_5 = Geometry {
        x: 400,
        y: 0,
        width: 400,
        height: 300,
    };
    let slave_2_of_5 = Geometry {
        x: 600,
        y: 300,
        width: 200,
        height: 300,
    };
    let slave_3_of_5 = Geometry {
        x: 400,
        y: 450,
        width: 200,
        height: 150,
    };
    let slave_4_of_5 = Geometry {
        x: 400,
        y: 300,
        width: 100,
        height: 150,
    };
    let slave_5_of_5 = Geometry {
        x: 500,
        y: 300,
        width: 100,
        height: 150,
    };

    let mut wm: TilingWM<SpiralLayouter> = TilingWM::new(screen);
    let master = wm.get_master_window();

    assert_eq!(master, None);
}

#[test]
fn spiral_tiling_support_swap_with_master_should_be_able_to_swap_with_master() {
    let screen: Screen = Screen {
        width: 800,
        height: 600,
    };
    let screen_geom = screen.to_geometry();

    let some_geom: Geometry = Geometry {
        x: 10,
        y: 10,
        width: 100,
        height: 100,
    };

    let master_geom = Geometry {
        x: 0, y: 0,
        width: screen.width/2,
        height: screen.height,
    };
    let slave_1_of_1 = Geometry {
        x: (screen.width/2) as i32,
        y: 0,
        width: screen.width/2,
        height: screen.height,
    };

    let slave_1_of_2 = Geometry {
        x: (screen.width/2) as i32,
        y: 0,
        width: screen.width/2,
        height: screen.height/2,
    };
    let slave_2_of_2 = Geometry {
        x: (screen.width/2) as i32,
        y: (screen.height/2) as i32,
        width: screen.width/2,
        height: screen.height/2,
    };

    let slave_1_of_5 = Geometry {
        x: 400,
        y: 0,
        width: 400,
        height: 300,
    };
    let slave_2_of_5 = Geometry {
        x: 600,
        y: 300,
        width: 200,
        height: 300,
    };
    let slave_3_of_5 = Geometry {
        x: 400,
        y: 450,
        width: 200,
        height: 150,
    };
    let slave_4_of_5 = Geometry {
        x: 400,
        y: 300,
        width: 100,
        height: 150,
    };
    let slave_5_of_5 = Geometry {
        x: 500,
        y: 300,
        width: 100,
        height: 150,
    };

    let mut wm: TilingWM<SpiralLayouter> = TilingWM::new(screen);
    wm.add_window(WindowWithInfo::new_tiled(1, some_geom)).unwrap();
    wm.add_window(WindowWithInfo::new_tiled(2, some_geom)).unwrap();
    wm.add_window(WindowWithInfo::new_tiled(3, some_geom)).unwrap();
    wm.swap_with_master(2).unwrap();

    assert_eq!(wm.get_focused_window(), Some(2));
    assert_eq!(wm.get_master_window(), Some(2));
    let windows = vec![(2, master_geom),
                       (1, slave_1_of_2),
                       (3, slave_2_of_2)];
    assert_eq!(wm.get_window_layout().windows, windows);
}

#[test]
fn spiral_tiling_support_swap_with_master_should_focus_the_master_tile_if_it_is_already_the_master_window() {
    let screen: Screen = Screen {
        width: 800,
        height: 600,
    };
    let screen_geom = screen.to_geometry();

    let some_geom: Geometry = Geometry {
        x: 10,
        y: 10,
        width: 100,
        height: 100,
    };

    let master_geom = Geometry {
        x: 0, y: 0,
        width: screen.width/2,
        height: screen.height,
    };
    let slave_1_of_1 = Geometry {
        x: (screen.width/2) as i32,
        y: 0,
        width: screen.width/2,
        height: screen.height,
    };

    let slave_1_of_2 = Geometry {
        x: (screen.width/2) as i32,
        y: 0,
        width: screen.width/2,
        height: screen.height/2,
    };
    let slave_2_of_2 = Geometry {
        x: (screen.width/2) as i32,
        y: (screen.height/2) as i32,
        width: screen.width/2,
        height: screen.height/2,
    };

    let slave_1_of_5 = Geometry {
        x: 400,
        y: 0,
        width: 400,
        height: 300,
    };
    let slave_2_of_5 = Geometry {
        x: 600,
        y: 300,
        width: 200,
        height: 300,
    };
    let slave_3_of_5 = Geometry {
        x: 400,
        y: 450,
        width: 200,
        height: 150,
    };
    let slave_4_of_5 = Geometry {
        x: 400,
        y: 300,
        width: 100,
        height: 150,
    };
    let slave_5_of_5 = Geometry {
        x: 500,
        y: 300,
        width: 100,
        height: 150,
    };

    let mut wm: TilingWM<SpiralLayouter> = TilingWM::new(screen);
    wm.add_window(WindowWithInfo::new_tiled(1, some_geom)).unwrap();
    wm.add_window(WindowWithInfo::new_tiled(2, some_geom)).unwrap();
    wm.add_window(WindowWithInfo::new_tiled(3, some_geom)).unwrap();
    wm.swap_with_master(1).unwrap();

    assert_eq!(wm.get_focused_window(), Some(1));
    assert_eq!(wm.get_master_window(), Some(1));
    let windows = vec![(1, master_geom),
                       (2, slave_1_of_2),
                       (3, slave_2_of_2)];
    assert_eq!(wm.get_window_layout().windows, windows);
}

#[test]
fn spiral_tiling_support_swap_with_master_should_error_if_the_window_is_not_managed_by_the_wm() {
    let screen: Screen = Screen {
        width: 800,
        height: 600,
    };
    let screen_geom = screen.to_geometry();

    let some_geom: Geometry = Geometry {
        x: 10,
        y: 10,
        width: 100,
        height: 100,
    };

    let master_geom = Geometry {
        x: 0, y: 0,
        width: screen.width/2,
        height: screen.height,
    };
    let slave_1_of_1 = Geometry {
        x: (screen.width/2) as i32,
        y: 0,
        width: screen.width/2,
        height: screen.height,
    };

    let slave_1_of_2 = Geometry {
        x: (screen.width/2) as i32,
        y: 0,
        width: screen.width/2,
        height: screen.height/2,
    };
    let slave_2_of_2 = Geometry {
        x: (screen.width/2) as i32,
        y: (screen.height/2) as i32,
        width: screen.width/2,
        height: screen.height/2,
    };

    let slave_1_of_5 = Geometry {
        x: 400,
        y: 0,
        width: 400,
        height: 300,
    };
    let slave_2_of_5 = Geometry {
        x: 600,
        y: 300,
        width: 200,
        height: 300,
    };
    let slave_3_of_5 = Geometry {
        x: 400,
        y: 450,
        width: 200,
        height: 150,
    };
    let slave_4_of_5 = Geometry {
        x: 400,
        y: 300,
        width: 100,
        height: 150,
    };
    let slave_5_of_5 = Geometry {
        x: 500,
        y: 300,
        width: 100,
        height: 150,
    };

    let mut wm: TilingWM<SpiralLayouter> = TilingWM::new(screen);
    wm.add_window(WindowWithInfo::new_tiled(1, some_geom)).unwrap();
    wm.add_window(WindowWithInfo::new_tiled(2, some_geom)).unwrap();
    wm.add_window(WindowWithInfo::new_tiled(3, some_geom)).unwrap();
    assert!(wm.swap_with_master(4).is_err());
}

#[test]
fn spiral_tiling_support_swap_windows_should_be_able_to_swap_the_focused_window_with_another_window_in_forward_direction() {
    let screen: Screen = Screen {
        width: 800,
        height: 600,
    };
    let screen_geom = screen.to_geometry();

    let some_geom: Geometry = Geometry {
        x: 10,
        y: 10,
        width: 100,
        height: 100,
    };

    let master_geom = Geometry {
        x: 0, y: 0,
        width: screen.width/2,
        height: screen.height,
    };
    let slave_1_of_1 = Geometry {
        x: (screen.width/2) as i32,
        y: 0,
        width: screen.width/2,
        height: screen.height,
    };

    let slave_1_of_2 = Geometry {
        x: (screen.width/2) as i32,
        y: 0,
        width: screen.width/2,
        height: screen.height/2,
    };
    let slave_2_of_2 = Geometry {
        x: (screen.width/2) as i32,
        y: (screen.height/2) as i32,
        width: screen.width/2,
        height: screen.height/2,
    };

    let slave_1_of_5 = Geometry {
        x: 400,
        y: 0,
        width: 400,
        height: 300,
    };
    let slave_2_of_5 = Geometry {
        x: 600,
        y: 300,
        width: 200,
        height: 300,
    };
    let slave_3_of_5 = Geometry {
        x: 400,
        y: 450,
        width: 200,
        height: 150,
    };
    let slave_4_of_5 = Geometry {
        x: 400,
        y: 300,
        width: 100,
        height: 150,
    };
    let slave_5_of_5 = Geometry {
        x: 500,
        y: 300,
        width: 100,
        height: 150,
    };

    let mut wm: TilingWM<SpiralLayouter> = TilingWM::new(screen);
    wm.add_window(WindowWithInfo::new_tiled(1, some_geom)).unwrap();
    wm.add_window(WindowWithInfo::new_tiled(2, some_geom)).unwrap();
    wm.add_window(WindowWithInfo::new_tiled(3, some_geom)).unwrap();
    wm.focus_window(Some(2)).unwrap();

    wm.swap_windows(Next);

    assert_eq!(wm.get_focused_window(), Some(2));
    let windows = vec![(1, master_geom),
                       (3, slave_1_of_2),
                       (2, slave_2_of_2)];
    assert_eq!(wm.get_window_layout().windows, windows);
}

#[test]
fn spiral_tiling_support_swap_windows_should_be_able_to_swap_the_focused_window_with_another_window_in_backward_direction() {
    let screen: Screen = Screen {
        width: 800,
        height: 600,
    };
    let screen_geom = screen.to_geometry();

    let some_geom: Geometry = Geometry {
        x: 10,
        y: 10,
        width: 100,
        height: 100,
    };

    let master_geom = Geometry {
        x: 0, y: 0,
        width: screen.width/2,
        height: screen.height,
    };
    let slave_1_of_1 = Geometry {
        x: (screen.width/2) as i32,
        y: 0,
        width: screen.width/2,
        height: screen.height,
    };

    let slave_1_of_2 = Geometry {
        x: (screen.width/2) as i32,
        y: 0,
        width: screen.width/2,
        height: screen.height/2,
    };
    let slave_2_of_2 = Geometry {
        x: (screen.width/2) as i32,
        y: (screen.height/2) as i32,
        width: screen.width/2,
        height: screen.height/2,
    };

    let slave_1_of_5 = Geometry {
        x: 400,
        y: 0,
        width: 400,
        height: 300,
    };
    let slave_2_of_5 = Geometry {
        x: 600,
        y: 300,
        width: 200,
        height: 300,
    };
    let slave_3_of_5 = Geometry {
        x: 400,
        y: 450,
        width: 200,
        height: 150,
    };
    let slave_4_of_5 = Geometry {
        x: 400,
        y: 300,
        width: 100,
        height: 150,
    };
    let slave_5_of_5 = Geometry {
        x: 500,
        y: 300,
        width: 100,
        height: 150,
    };

    let mut wm: TilingWM<SpiralLayouter> = TilingWM::new(screen);
    wm.add_window(WindowWithInfo::new_tiled(1, some_geom)).unwrap();
    wm.add_window(WindowWithInfo::new_tiled(2, some_geom)).unwrap();
    wm.add_window(WindowWithInfo::new_tiled(3, some_geom)).unwrap();
    wm.focus_window(Some(2)).unwrap();

    wm.swap_windows(Prev);

    assert_eq!(wm.get_focused_window(), Some(2));
    let windows = vec![(2, master_geom),
                       (1, slave_1_of_2),
                       (3, slave_2_of_2)];
    assert_eq!(wm.get_window_layout().windows, windows);
}

#[test]
fn spiral_tiling_support_swap_windows_should_cycle_the_swap_in_forward_direction() {
    let screen: Screen = Screen {
        width: 800,
        height: 600,
    };
    let screen_geom = screen.to_geometry();

    let some_geom: Geometry = Geometry {
        x: 10,
        y: 10,
        width: 100,
        height: 100,
    };

    let master_geom = Geometry {
        x: 0, y: 0,
        width: screen.width/2,
        height: screen.height,
    };
    let slave_1_of_1 = Geometry {
        x: (screen.width/2) as i32,
        y: 0,
        width: screen.width/2,
        height: screen.height,
    };

    let slave_1_of_2 = Geometry {
        x: (screen.width/2) as i32,
        y: 0,
        width: screen.width/2,
        height: screen.height/2,
    };
    let slave_2_of_2 = Geometry {
        x: (screen.width/2) as i32,
        y: (screen.height/2) as i32,
        width: screen.width/2,
        height: screen.height/2,
    };

    let slave_1_of_5 = Geometry {
        x: 400,
        y: 0,
        width: 400,
        height: 300,
    };
    let slave_2_of_5 = Geometry {
        x: 600,
        y: 300,
        width: 200,
        height: 300,
    };
    let slave_3_of_5 = Geometry {
        x: 400,
        y: 450,
        width: 200,
        height: 150,
    };
    let slave_4_of_5 = Geometry {
        x: 400,
        y: 300,
        width: 100,
        height: 150,
    };
    let slave_5_of_5 = Geometry {
        x: 500,
        y: 300,
        width: 100,
        height: 150,
    };

    let mut wm: TilingWM<SpiralLayouter> = TilingWM::new(screen);
    wm.add_window(WindowWithInfo::new_tiled(1, some_geom)).unwrap();
    wm.add_window(WindowWithInfo::new_tiled(2, some_geom)).unwrap();
    wm.add_window(WindowWithInfo::new_tiled(3, some_geom)).unwrap();
    wm.swap_windows(Next);

    assert_eq!(wm.get_focused_window(), Some(3));
    let windows = vec![(3, master_geom),
                       (2, slave_1_of_2),
                       (1, slave_2_of_2)];
    assert_eq!(wm.get_window_layout().windows, windows);
}

#[test]
fn spiral_tiling_support_swap_windows_should_cycle_the_swap_in_backward_direction() {
    let screen: Screen = Screen {
        width: 800,
        height: 600,
    };
    let screen_geom = screen.to_geometry();

    let some_geom: Geometry = Geometry {
        x: 10,
        y: 10,
        width: 100,
        height: 100,
    };

    let master_geom = Geometry {
        x: 0, y: 0,
        width: screen.width/2,
        height: screen.height,
    };
    let slave_1_of_1 = Geometry {
        x: (screen.width/2) as i32,
        y: 0,
        width: screen.width/2,
        height: screen.height,
    };

    let slave_1_of_2 = Geometry {
        x: (screen.width/2) as i32,
        y: 0,
        width: screen.width/2,
        height: screen.height/2,
    };
    let slave_2_of_2 = Geometry {
        x: (screen.width/2) as i32,
        y: (screen.height/2) as i32,
        width: screen.width/2,
        height: screen.height/2,
    };

    let slave_1_of_5 = Geometry {
        x: 400,
        y: 0,
        width: 400,
        height: 300,
    };
    let slave_2_of_5 = Geometry {
        x: 600,
        y: 300,
        width: 200,
        height: 300,
    };
    let slave_3_of_5 = Geometry {
        x: 400,
        y: 450,
        width: 200,
        height: 150,
    };
    let slave_4_of_5 = Geometry {
        x: 400,
        y: 300,
        width: 100,
        height: 150,
    };
    let slave_5_of_5 = Geometry {
        x: 500,
        y: 300,
        width: 100,
        height: 150,
    };

    let mut wm: TilingWM<SpiralLayouter> = TilingWM::new(screen);
    wm.add_window(WindowWithInfo::new_tiled(1, some_geom)).unwrap();
    wm.add_window(WindowWithInfo::new_tiled(2, some_geom)).unwrap();
    wm.add_window(WindowWithInfo::new_tiled(3, some_geom)).unwrap();
    wm.focus_window(Some(1)).unwrap();

    wm.swap_windows(Prev);

    assert_eq!(wm.get_focused_window(), Some(1));
    let windows = vec![(3, master_geom),
                       (2, slave_1_of_2),
                       (1, slave_2_of_2)];
    assert_eq!(wm.get_window_layout().windows, windows);
}

#[test]
fn spiral_tiling_support_swap_windows_should_not_do_anything_if_there_is_no_focused_window() {
    let screen: Screen = Screen {
        width: 800,
        height: 600,
    };
    let screen_geom = screen.to_geometry();

    let some_geom: Geometry = Geometry {
        x: 10,
        y: 10,
        width: 100,
        height: 100,
    };

    let master_geom = Geometry {
        x: 0, y: 0,
        width: screen.width/2,
        height: screen.height,
    };
    let slave_1_of_1 = Geometry {
        x: (screen.width/2) as i32,
        y: 0,
        width: screen.width/2,
        height: screen.height,
    };

    let slave_1_of_2 = Geometry {
        x: (screen.width/2) as i32,
        y: 0,
        width: screen.width/2,
        height: screen.height/2,
    };
    let slave_2_of_2 = Geometry {
        x: (screen.width/2) as i32,
        y: (screen.height/2) as i32,
        width: screen.width/2,
        height: screen.height/2,
    };

    let slave_1_of_5 = Geometry {
        x: 400,
        y: 0,
        width: 400,
        height: 300,
    };
    let slave_2_of_5 = Geometry {
        x: 600,
        y: 300,
        width: 200,
        height: 300,
    };
    let slave_3_of_5 = Geometry {
        x: 400,
        y: 450,
        width: 200,
        height: 150,
    };
    let slave_4_of_5 = Geometry {
        x: 400,
        y: 300,
        width: 100,
        height: 150,
    };
    let slave_5_of_5 = Geometry {
        x: 500,
        y: 300,
        width: 100,
        height: 150,
    };

    let mut wm: TilingWM<SpiralLayouter> = TilingWM::new(screen);
    wm.add_window(WindowWithInfo::new_tiled(1, some_geom)).unwrap();
    wm.add_window(WindowWithInfo::new_tiled(2, some_geom)).unwrap();
    wm.add_window(WindowWithInfo::new_tiled(3, some_geom)).unwrap();
    wm.focus_window(None).unwrap();

    wm.swap_windows(Next);

    assert_eq!(wm.get_focused_window(), None);
    let windows = vec![(1, master_geom),
                       (2, slave_1_of_2),
                       (3, slave_2_of_2)];
    assert_eq!(wm.get_window_layout().windows, windows);
}

#[test]
fn spiral_tiling_support_swap_windows_should_not_do_anything_if_calling_swap_in_2_opposite_directions() {
    let screen: Screen = Screen {
        width: 800,
        height: 600,
    };
    let screen_geom = screen.to_geometry();

    let some_geom: Geometry = Geometry {
        x: 10,
        y: 10,
        width: 100,
        height: 100,
    };

    let master_geom = Geometry {
        x: 0, y: 0,
        width: screen.width/2,
        height: screen.height,
    };
    let slave_1_of_1 = Geometry {
        x: (screen.width/2) as i32,
        y: 0,
        width: screen.width/2,
        height: screen.height,
    };

    let slave_1_of_2 = Geometry {
        x: (screen.width/2) as i32,
        y: 0,
        width: screen.width/2,
        height: screen.height/2,
    };
    let slave_2_of_2 = Geometry {
        x: (screen.width/2) as i32,
        y: (screen.height/2) as i32,
        width: screen.width/2,
        height: screen.height/2,
    };

    let slave_1_of_5 = Geometry {
        x: 400,
        y: 0,
        width: 400,
        height: 300,
    };
    let slave_2_of_5 = Geometry {
        x: 600,
        y: 300,
        width: 200,
        height: 300,
    };
    let slave_3_of_5 = Geometry {
        x: 400,
        y: 450,
        width: 200,
        height: 150,
    };
    let slave_4_of_5 = Geometry {
        x: 400,
        y: 300,
        width: 100,
        height: 150,
    };
    let slave_5_of_5 = Geometry {
        x: 500,
        y: 300,
        width: 100,
        height: 150,
    };

    let mut wm: TilingWM<SpiralLayouter> = TilingWM::new(screen);
    wm.add_window(WindowWithInfo::new_tiled(1, some_geom)).unwrap();
    wm.add_window(WindowWithInfo::new_tiled(2, some_geom)).unwrap();
    wm.add_window(WindowWithInfo::new_tiled(3, some_geom)).unwrap();
    wm.swap_windows(Prev);
    wm.swap_windows(Next);

    assert_eq!(wm.get_focused_window(), Some(3));
    let windows = vec![(1, master_geom),
                       (2, slave_1_of_2),
                       (3, slave_2_of_2)];
    assert_eq!(wm.get_window_layout().windows, windows);
}

#[test]
fn spiral_tiling_support_swap_windows_should_not_do_anything_if_calling_the_swap_twice_and_cycling_in_between() {
    let screen: Screen = Screen {
        width: 800,
        height: 600,
    };
    let screen_geom = screen.to_geometry();

    let some_geom: Geometry = Geometry {
        x: 10,
        y: 10,
        width: 100,
        height: 100,
    };

    let master_geom = Geometry {
        x: 0, y: 0,
        width: screen.width/2,
        height: screen.height,
    };
    let slave_1_of_1 = Geometry {
        x: (screen.width/2) as i32,
        y: 0,
        width: screen.width/2,
        height: screen.height,
    };

    let slave_1_of_2 = Geometry {
        x: (screen.width/2) as i32,
        y: 0,
        width: screen.width/2,
        height: screen.height/2,
    };
    let slave_2_of_2 = Geometry {
        x: (screen.width/2) as i32,
        y: (screen.height/2) as i32,
        width: screen.width/2,
        height: screen.height/2,
    };

    let slave_1_of_5 = Geometry {
        x: 400,
        y: 0,
        width: 400,
        height: 300,
    };
    let slave_2_of_5 = Geometry {
        x: 600,
        y: 300,
        width: 200,
        height: 300,
    };
    let slave_3_of_5 = Geometry {
        x: 400,
        y: 450,
        width: 200,
        height: 150,
    };
    let slave_4_of_5 = Geometry {
        x: 400,
        y: 300,
        width: 100,
        height: 150,
    };
    let slave_5_of_5 = Geometry {
        x: 500,
        y: 300,
        width: 100,
        height: 150,
    };

    let mut wm: TilingWM<SpiralLayouter> = TilingWM::new(screen);
    wm.add_window(WindowWithInfo::new_tiled(1, some_geom)).unwrap();
    wm.add_window(WindowWithInfo::new_tiled(2, some_geom)).unwrap();
    wm.add_window(WindowWithInfo::new_tiled(3, some_geom)).unwrap();
    wm.swap_windows(Next);
    wm.swap_windows(Prev);

    assert_eq!(wm.get_focused_window(), Some(3));
    let windows = vec![(1, master_geom),
                       (2, slave_1_of_2),
                       (3, slave_2_of_2)];
    assert_eq!(wm.get_window_layout().windows, windows);
}

#[test]
fn spiral_tiling_support_swap_windows_should_not_do_anything_if_calling_with_only_one_window() {
    let screen: Screen = Screen {
        width: 800,
        height: 600,
    };
    let screen_geom = screen.to_geometry();

    let some_geom: Geometry = Geometry {
        x: 10,
        y: 10,
        width: 100,
        height: 100,
    };

    let master_geom = Geometry {
        x: 0, y: 0,
        width: screen.width/2,
        height: screen.height,
    };
    let slave_1_of_1 = Geometry {
        x: (screen.width/2) as i32,
        y: 0,
        width: screen.width/2,
        height: screen.height,
    };

    let slave_1_of_2 = Geometry {
        x: (screen.width/2) as i32,
        y: 0,
        width: screen.width/2,
        height: screen.height/2,
    };
    let slave_2_of_2 = Geometry {
        x: (screen.width/2) as i32,
        y: (screen.height/2) as i32,
        width: screen.width/2,
        height: screen.height/2,
    };

    let slave_1_of_5 = Geometry {
        x: 400,
        y: 0,
        width: 400,
        height: 300,
    };
    let slave_2_of_5 = Geometry {
        x: 600,
        y: 300,
        width: 200,
        height: 300,
    };
    let slave_3_of_5 = Geometry {
        x: 400,
        y: 450,
        width: 200,
        height: 150,
    };
    let slave_4_of_5 = Geometry {
        x: 400,
        y: 300,
        width: 100,
        height: 150,
    };
    let slave_5_of_5 = Geometry {
        x: 500,
        y: 300,
        width: 100,
        height: 150,
    };

    let mut wm: TilingWM<SpiralLayouter> = TilingWM::new(screen);
    wm.add_window(WindowWithInfo::new_tiled(1, some_geom)).unwrap();
    wm.add_window(WindowWithInfo::new_tiled(2, some_geom)).unwrap();
    wm.add_window(WindowWithInfo::new_tiled(3, some_geom)).unwrap();
    wm.remove_window(1).unwrap();
    wm.remove_window(2).unwrap();

    wm.swap_windows(Next);

    assert_eq!(wm.get_focused_window(), Some(3));
    let windows = vec![(3, screen_geom)];
    assert_eq!(wm.get_window_layout().windows, windows);
}

use tui_panels::frame::{compose, Panel};
use tui_panels::layout::Region;

fn region(x: u16, y: u16, width: u16, height: u16) -> Region {
    Region { x, y, width, height }
}

#[test]
fn bordered_panel_keeps_its_texts() {
    let panel = Panel::bordered("Title", "Some\ntext");
    assert_eq!(panel.title, "Title");
    assert_eq!(panel.body, "Some\ntext");
    assert!(panel.bordered);
}

#[test]
fn frame_has_the_four_panels_in_drawing_order() {
    let frame = compose(region(0, 0, 100, 30));
    let titles: Vec<&str> = frame.iter().map(|p| p.panel.title.as_str()).collect();
    assert_eq!(titles, vec!["Box 1", "Box 2", "Box 3", "Right Box"]);
    let bodies: Vec<&str> = frame.iter().map(|p| p.panel.body.as_str()).collect();
    assert_eq!(
        bodies,
        vec![
            "Top left box",
            "Middle left box",
            "Bottom left box",
            "Press 'q' to quit.\nThis is the right box.",
        ]
    );
    assert!(frame.iter().all(|p| p.panel.bordered));
}

#[test]
fn frame_places_the_panels_on_a_hundred_by_thirty_screen() {
    let frame = compose(region(0, 0, 100, 30));
    let regions: Vec<Region> = frame.iter().map(|p| p.region).collect();
    assert_eq!(
        regions,
        vec![
            region(0, 0, 50, 10),
            region(0, 10, 50, 10),
            region(0, 20, 50, 10),
            region(50, 0, 50, 30),
        ]
    );
}

#[test]
fn frame_places_the_panels_on_an_odd_screen() {
    let frame = compose(region(0, 0, 81, 25));
    let regions: Vec<Region> = frame.iter().map(|p| p.region).collect();
    assert_eq!(
        regions,
        vec![
            region(0, 0, 40, 8),
            region(0, 8, 40, 8),
            region(0, 16, 40, 9),
            region(40, 0, 41, 25),
        ]
    );
}

#[test]
fn frame_covers_every_cell_of_the_screen_once() {
    let screen = region(0, 0, 37, 11);
    let frame = compose(screen);
    for col in 0..40u16 {
        for row in 0..13u16 {
            let holders = frame
                .iter()
                .filter(|p| {
                    let r = p.region;
                    r.x <= col && col < r.x + r.width && r.y <= row && row < r.y + r.height
                })
                .count();
            let on_screen = col < 37 && row < 11;
            assert_eq!(holders, if on_screen { 1 } else { 0 });
        }
    }
}

#[test]
fn frame_of_an_empty_screen_has_four_empty_panels() {
    let frame = compose(region(0, 0, 0, 0));
    assert_eq!(frame.len(), 4);
    for placement in &frame {
        assert_eq!(placement.region, region(0, 0, 0, 0));
    }
}

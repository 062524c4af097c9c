use pgun::ui::draw::{draw, Rect};
use pgun::ui::App;
use ratatui::layout::{Constraint, Direction, Layout};
use std::path::PathBuf;

fn claim(c: Constraint) -> u32 {
    match c {
        Constraint::Min(n) | Constraint::Length(n) => n as u32,
        _ => 0,
    }
}

fn met(c: Constraint, height: u16) -> bool {
    match c {
        Constraint::Min(n) => height >= n,
        Constraint::Length(n) => height == n,
        _ => true,
    }
}

fn split(area: ratatui::layout::Rect, rows: [Constraint; 3]) -> Vec<ratatui::layout::Rect> {
    Layout::default().direction(Direction::Vertical).constraints(rows).split(area).to_vec()
}

#[test]
fn three_rows_have_the_heights_that_are_named() {
    let mut sizes = Vec::new();
    for n in [1u16, 5, 60] {
        sizes.push(Constraint::Percentage(n));
        sizes.push(Constraint::Min(n));
        sizes.push(Constraint::Length(n));
    }
    let mut held = 0;
    for a in &sizes {
        for b in &sizes {
            for c in &sizes {
                for (y, height) in [(0u16, 0u16), (3, 7), (1, 13), (0, 101), (7, 32767)] {
                    let area = ratatui::layout::Rect::new(2, y, 80, height);
                    let rows = split(area, [*a, *b, *c]);
                    assert_eq!(rows.len(), 3);
                    for r in &rows {
                        assert_eq!((r.x, r.width), (2, 80));
                        assert!(r.y >= y);
                        assert!(r.y as u32 + r.height as u32 <= y as u32 + height as u32);
                    }
                    let all = [*a, *b, *c];
                    let mins = all.iter().filter(|s| matches!(s, Constraint::Min(_))).count();
                    let claims: u32 = all.iter().map(|s| claim(*s)).sum();
                    if mins <= 1 && claims <= height as u32 {
                        held += 1;
                        for i in 0..3 {
                            assert!(met(all[i], rows[i].height), "{:?} {:?} {:?}", area, all, rows);
                        }
                    }
                }
            }
        }
    }
    assert!(held > 500);
}

#[test]
fn the_rows_of_the_terminal_are_split_as_asked() {
    let mut app = App::new(Default::default(), PathBuf::new());
    for height in 0..200u16 {
        let area = ratatui::layout::Rect::new(0, 0, 80, height);
        let size = Rect { x: 0, y: 0, width: 80, height };
        app.show_logs = false;
        let panels = draw(&app, size);
        let rows = split(
            area,
            [Constraint::Percentage(100), Constraint::Length(0), Constraint::Length(1)],
        );
        assert_eq!(panels[0].area.height, rows[0].height);
        assert_eq!((panels[1].area.y, panels[1].area.height), (rows[2].y, rows[2].height));
        app.show_logs = true;
        let panels = draw(&app, size);
        let rows =
            split(area, [Constraint::Percentage(60), Constraint::Min(5), Constraint::Length(1)]);
        for i in 0..3 {
            assert_eq!((panels[i].area.y, panels[i].area.height), (rows[i].y, rows[i].height));
        }
    }
}

use somsed::cache::ExpressionId;
use somsed::engine::{DrawItem, Engine};
use somsed::interaction::{Cursor, Emission, GraphState};
use somsed::sampler::{points, Evaluation, SampleError};
use somsed::segments::{segments, Mark};
use somsed::viewport::{Point, Viewport};

type Curve = fn(f64) -> Evaluation<f64>;
type Lines = Vec<((f64, f64), (f64, f64))>;
type Host = Engine<f64, Curve, Lines>;

const WIDTH: f64 = 400.0;
const HEIGHT: f64 = 300.0;

fn parabola(x: f64) -> Evaluation<f64> {
    Evaluation::Value(x * x)
}

fn reciprocal(x: f64) -> Evaluation<f64> {
    if x == 0.0 {
        Evaluation::DivideByZero
    } else {
        Evaluation::Value(1.0 / x)
    }
}

fn unbound(x: f64) -> Evaluation<f64> {
    if x < 0.0 {
        Evaluation::Value(x)
    } else {
        Evaluation::UnknownSymbol("k".to_string())
    }
}

fn to_screen(p: (f64, f64), viewport: &Viewport<f64>, size: (f64, f64)) -> (f64, f64) {
    (
        (p.0 - viewport.mid.x) * viewport.scale + size.0 / 2.0,
        (viewport.mid.y - p.1) * viewport.scale + size.1 / 2.0,
    )
}

fn to_data(s: (f64, f64), viewport: &Viewport<f64>, size: (f64, f64)) -> (f64, f64) {
    (
        (s.0 - size.0 / 2.0) / viewport.scale + viewport.mid.x,
        viewport.mid.y - (s.1 - size.1 / 2.0) / viewport.scale,
    )
}

fn samples_of(
    curve: &Curve,
    viewport: &Viewport<f64>,
    size: (f64, f64),
) -> Result<Vec<Option<(f64, f64)>>, SampleError> {
    let width = size.0 / viewport.scale;
    let dx = width / viewport.resolution as f64;
    let min = viewport.mid.x - width / 2.0;
    points(viewport.resolution, |i: u32| min + i as f64 * dx, |x: &f64| curve(*x))
}

fn plot(
    _id: ExpressionId,
    curve: &Curve,
    viewport: &Viewport<f64>,
    size: &(f64, f64),
) -> Result<Lines, String> {
    let samples = match samples_of(curve, viewport, *size) {
        Ok(samples) => samples,
        Err(SampleError::UnknownSymbol(name)) => return Err(format!("unknown symbol {}", name)),
    };
    let marks: Vec<Mark> = samples
        .iter()
        .map(|sample| match sample {
            None => Mark::Gap,
            Some(p) => {
                let y = to_screen(*p, viewport, *size).1;
                if !p.1.is_finite() || !y.is_finite() {
                    Mark::NonFinite
                } else if y < -2.0 * size.1 || y > 3.0 * size.1 {
                    Mark::OffBand
                } else {
                    Mark::Plottable
                }
            }
        })
        .collect();
    Ok(segments(&marks)
        .into_iter()
        .map(|i| {
            (
                to_screen(samples[i].unwrap(), viewport, *size),
                to_screen(samples[i + 1].unwrap(), viewport, *size),
            )
        })
        .collect())
}

fn host(resolution: u32) -> Host {
    Engine::new(Viewport::new(100.0, Point { x: 0.0, y: 0.0 }, resolution).unwrap())
}

fn apply(engine: &mut Host, emission: Emission<f64>, size: (f64, f64)) {
    let scale = engine.viewport().scale;
    let mid = engine.viewport().mid;
    match emission {
        Emission::Nothing => {}
        Emission::Pan { from, to } => {
            let dx = (from.x - to.x) / scale;
            let dy = -(from.y - to.y) / scale;
            engine.pan(Point { x: mid.x + dx, y: mid.y + dy });
        }
        Emission::Zoom { delta_y, cursor } => {
            let new_scale = scale * (1.0 + delta_y / 30.0);
            let new_mid = cursor.map(|c| {
                let factor = (new_scale - scale) / (scale * new_scale);
                Point {
                    x: mid.x + (c.x - size.0 / 2.0) * factor,
                    y: mid.y - (c.y - size.1 / 2.0) * factor,
                }
            });
            engine.zoom(new_scale, new_mid);
        }
    }
}

fn close(a: (f64, f64), b: (f64, f64)) -> bool {
    (a.0 - b.0).abs() < 1e-9 && (a.1 - b.1).abs() < 1e-9
}

#[test]
fn a_parabola_on_a_canvas_of_400_at_scale_100() {
    let mut engine = host(4);
    let a = engine.equation_added("y = x^2".to_string(), Ok(parabola as Curve)).unwrap();
    let samples = samples_of(&(parabola as Curve), engine.viewport(), (WIDTH, HEIGHT));
    assert_eq!(
        samples.ok().unwrap(),
        vec![Some((-2.0, 4.0)), Some((-1.0, 1.0)), Some((0.0, 0.0)), Some((1.0, 1.0))]
    );
    let frame = engine.draw(&(WIDTH, HEIGHT), plot);
    assert_eq!(
        frame.items,
        vec![DrawItem::Graph(a), DrawItem::VerticalAxis, DrawItem::HorizontalAxis]
    );
    assert_eq!(
        engine.geometry(a),
        Some(&vec![
            ((0.0, -250.0), (100.0, 50.0)),
            ((100.0, 50.0), (200.0, 150.0)),
            ((200.0, 150.0), (300.0, 50.0)),
        ])
    );
}

#[test]
fn a_reciprocal_is_broken_at_its_pole() {
    let mut engine = host(4);
    let a = engine.equation_added("y = 1/x".to_string(), Ok(reciprocal as Curve)).unwrap();
    engine.draw(&(WIDTH, HEIGHT), plot);
    let lines = engine.geometry(a).unwrap();
    assert_eq!(lines, &vec![((0.0, 200.0), (100.0, 250.0))]);
    for (from, to) in lines {
        assert!(!(from.0 < 200.0 && to.0 > 200.0));
        assert!(from.0 != 200.0 && to.0 != 200.0);
    }
}

#[test]
fn an_unknown_symbol_shows_beside_its_equation_only() {
    let mut engine = host(4);
    let a = engine.equation_added("y = x^2".to_string(), Ok(parabola as Curve)).unwrap();
    let b = engine.equation_added("y = k".to_string(), Ok(unbound as Curve)).unwrap();
    let frame = engine.draw(&(WIDTH, HEIGHT), plot);
    assert_eq!(
        frame.items,
        vec![DrawItem::Graph(a), DrawItem::VerticalAxis, DrawItem::HorizontalAxis]
    );
    assert_eq!(engine.error(a), None);
    assert_eq!(engine.error(b), Some(&"unknown symbol k".to_string()));
    assert_eq!(engine.geometry(a).map(|lines| lines.len()), Some(3));
    assert_eq!(engine.viewport().scale, 100.0);
}

#[test]
fn screen_and_data_coordinates_are_inverse() {
    let sizes = [(400.0, 300.0), (1.0, 1.0), (1920.0, 1080.0)];
    let scales = [100.0, 0.5, 3.0e4];
    let mids = [(0.0, 0.0), (-12.5, 7.25), (1.0e3, -2.0e3)];
    let spots = [(0.0, 0.0), (1.5, -2.5), (-40.0, 13.0), (1.0e4, 2.0e-3)];
    for size in sizes {
        for scale in scales {
            for mid in mids {
                let viewport = Viewport::new(scale, Point { x: mid.0, y: mid.1 }, 2).unwrap();
                for p in spots {
                    let back = to_data(to_screen(p, &viewport, size), &viewport, size);
                    let slack = 1e-9 * (1.0 + p.0.abs() + p.1.abs() + mid.0.abs() + mid.1.abs());
                    assert!((back.0 - p.0).abs() <= slack && (back.1 - p.1).abs() <= slack);
                }
            }
        }
    }
}

#[test]
fn a_drag_moves_the_centre_against_the_pointer() {
    let mut engine = host(4);
    let a = engine.equation_added("y = x^2".to_string(), Ok(parabola as Curve)).unwrap();
    engine.draw(&(WIDTH, HEIGHT), plot);
    let mut state = GraphState::<f64>::new();
    let size = (WIDTH, HEIGHT);
    let grabbed = to_data((100.0, 50.0), engine.viewport(), size);

    apply(&mut engine, state.pointer_down(Cursor::Over(Point { x: 100.0, y: 50.0 })), size);
    assert_eq!(engine.pending(), vec![]);
    apply(&mut engine, state.pointer_move(Cursor::Over(Point { x: 150.0, y: 80.0 })), size);
    assert_eq!((engine.viewport().mid.x, engine.viewport().mid.y), (-0.5, 0.3));
    assert_eq!(engine.pending(), vec![a]);
    assert!(close(to_screen(grabbed, engine.viewport(), size), (150.0, 80.0)));

    apply(&mut engine, state.pointer_up(Cursor::Over(Point { x: 150.0, y: 80.0 })), size);
    apply(&mut engine, state.pointer_move(Cursor::Over(Point { x: 10.0, y: 10.0 })), size);
    assert_eq!((engine.viewport().mid.x, engine.viewport().mid.y), (-0.5, 0.3));
}

#[test]
fn a_zoom_keeps_the_point_under_the_cursor_in_place() {
    let size = (WIDTH, HEIGHT);
    for delta_y in [3.0, -3.0, 15.0, -15.0, 0.5] {
        for cursor in [(0.0, 0.0), (399.0, 299.0), (200.0, 150.0), (37.0, 221.0)] {
            let mut engine = host(4);
            engine.pan(Point { x: 2.5, y: -1.25 });
            let mut state = GraphState::<f64>::new();
            let under = to_data(cursor, engine.viewport(), size);
            let emission = state.wheel(delta_y, Cursor::Over(Point { x: cursor.0, y: cursor.1 }));
            apply(&mut engine, emission, size);
            assert_eq!(engine.viewport().scale, 100.0 * (1.0 + delta_y / 30.0));
            assert!(close(to_screen(under, engine.viewport(), size), cursor));
        }
    }
}

#[test]
fn a_zoom_without_a_cursor_keeps_the_centre() {
    let size = (WIDTH, HEIGHT);
    let mut engine = host(4);
    let a = engine.equation_added("y = x^2".to_string(), Ok(parabola as Curve)).unwrap();
    engine.pan(Point { x: 2.5, y: -1.25 });
    engine.draw(&size, plot);
    let mut state = GraphState::<f64>::new();
    apply(&mut engine, state.wheel(6.0, Cursor::Unknown), size);
    assert_eq!(engine.viewport().scale, 120.0);
    assert_eq!((engine.viewport().mid.x, engine.viewport().mid.y), (2.5, -1.25));
    assert_eq!(engine.pending(), vec![a]);
}

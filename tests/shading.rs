use printpdf::geometry::{channel, Color, Num, Transform};
use printpdf::shading::{color, linear_gradient_shading, GradientStop, LinearGradient};

fn stop(offset: i64, red: u8, green: u8, blue: u8) -> GradientStop {
    GradientStop { offset: Num(offset), color: Color { red, green, blue } }
}

fn gradient(stops: Vec<GradientStop>) -> LinearGradient {
    LinearGradient {
        x1: Num(0),
        y1: Num(1_000_000),
        x2: Num(2_000_000),
        y2: Num(3_000_000),
        transform: Transform::identity(),
        stops,
    }
}

#[test]
fn three_stops_give_two_functions_one_bound_four_encodes() {
    let lg = gradient(vec![stop(0, 255, 0, 0), stop(400_000, 0, 255, 0), stop(1_000_000, 0, 0, 255)]);
    let s = linear_gradient_shading(&lg);
    assert_eq!(s.coords, vec![Num(0), Num(1_000_000), Num(2_000_000), Num(3_000_000)]);
    assert_eq!(s.function.functions.len(), 2);
    assert_eq!(s.function.bounds, vec![Num(400_000)]);
    assert_eq!(s.function.encode, vec![0, 1, 0, 1]);
    assert_eq!(s.function.functions[0].c0, vec![Num(1_000_000), Num(0), Num(0)]);
    assert_eq!(s.function.functions[0].c1, vec![Num(0), Num(1_000_000), Num(0)]);
    assert_eq!(s.function.functions[1].c1, vec![Num(0), Num(0), Num(1_000_000)]);
}

#[test]
fn five_stops_give_counts_in_proportion() {
    let lg = gradient(vec![
        stop(0, 0, 0, 0),
        stop(250_000, 10, 10, 10),
        stop(500_000, 20, 20, 20),
        stop(750_000, 30, 30, 30),
        stop(1_000_000, 40, 40, 40),
    ]);
    let s = linear_gradient_shading(&lg);
    assert_eq!(s.function.functions.len(), 4);
    assert_eq!(s.function.bounds, vec![Num(250_000), Num(500_000), Num(750_000)]);
    assert_eq!(s.function.encode, vec![0, 1, 0, 1, 0, 1, 0, 1]);
}

#[test]
fn two_stops_have_no_bounds() {
    let lg = gradient(vec![stop(0, 0, 0, 0), stop(1_000_000, 255, 255, 255)]);
    let s = linear_gradient_shading(&lg);
    assert_eq!(s.function.functions.len(), 1);
    assert!(s.function.bounds.is_empty());
    assert_eq!(s.function.encode, vec![0, 1]);
}

#[test]
fn one_stop_degenerates_to_empty_function() {
    let lg = gradient(vec![stop(0, 1, 2, 3)]);
    let s = linear_gradient_shading(&lg);
    assert!(s.function.functions.is_empty());
    assert!(s.function.bounds.is_empty());
    assert!(s.function.encode.is_empty());
}

#[test]
fn no_stops_degenerate_to_empty_function() {
    let s = linear_gradient_shading(&gradient(Vec::new()));
    assert!(s.function.functions.is_empty());
    assert!(s.function.bounds.is_empty());
    assert!(s.function.encode.is_empty());
}

#[test]
fn channels_are_divided_by_255() {
    assert_eq!(channel(0), Num(0));
    assert_eq!(channel(255), Num(1_000_000));
    assert_eq!(channel(128), Num(501_960));
    assert_eq!(color(Color { red: 51, green: 102, blue: 204 }), vec![Num(200_000), Num(400_000), Num(800_000)]);
}

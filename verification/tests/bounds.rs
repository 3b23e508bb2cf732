use ism2::extremes::{IExtreme, IVerticesExtremes};
use ism2::model_data::{FrenetFrame, Vector2D, Vector3D, VertexGeometry};
use ism2::single::{gt, lt};

const SAMPLES: [f32; 17] = [
    0.0,
    -0.0,
    1.0,
    -1.0,
    0.5,
    -0.5,
    1.0e-40,
    -1.0e-40,
    3.4028235e38,
    -3.4028235e38,
    f32::INFINITY,
    f32::NEG_INFINITY,
    f32::NAN,
    f32::MIN_POSITIVE,
    123456.79,
    -123456.79,
    2.0,
];

fn vertex(x: f32, y: f32, z: f32) -> VertexGeometry {
    VertexGeometry {
        position_coordinates: Vector3D { x: x.to_bits(), y: y.to_bits(), z: z.to_bits() },
        texture_coordinates: Vector2D { u: 0, v: 0 },
        frenet_frame: FrenetFrame {
            normal: Vector3D { x: 0, y: 0, z: 0 },
            tangent: Vector3D { x: 0, y: 0, z: 0 },
        },
    }
}

#[test]
fn patterns_are_ordered_as_their_numbers_are() {
    for a in SAMPLES {
        for b in SAMPLES {
            assert_eq!(lt(a.to_bits(), b.to_bits()), a < b, "{} < {}", a, b);
            assert_eq!(gt(a.to_bits(), b.to_bits()), a > b, "{} > {}", a, b);
        }
    }
    let negative_nan = f32::NAN.to_bits() | 0x8000_0000;
    assert!(!lt(negative_nan, 0));
    assert!(!gt(negative_nan, 0));
    assert!(!lt(0x7F80_0001, 0x7F80_0000));
    assert!(lt(0x7F7F_FFFF, 0x7F80_0000));
}

#[test]
fn a_bound_moves_only_for_a_value_beyond_it() {
    let mut extreme = IExtreme { min: 1.0f32.to_bits(), max: 2.0f32.to_bits() };
    extreme.update(1.5f32.to_bits());
    assert_eq!(extreme, IExtreme { min: 1.0f32.to_bits(), max: 2.0f32.to_bits() });
    extreme.update((-4.0f32).to_bits());
    assert_eq!(extreme, IExtreme { min: (-4.0f32).to_bits(), max: 2.0f32.to_bits() });
    extreme.update(8.0f32.to_bits());
    assert_eq!(extreme, IExtreme { min: (-4.0f32).to_bits(), max: 8.0f32.to_bits() });
    extreme.update(f32::NAN.to_bits());
    assert_eq!(extreme, IExtreme { min: (-4.0f32).to_bits(), max: 8.0f32.to_bits() });

    let mut zero = IExtreme { min: 0.0f32.to_bits(), max: 0.0f32.to_bits() };
    zero.update((-0.0f32).to_bits());
    assert_eq!(zero, IExtreme { min: 0, max: 0 });
}

#[test]
fn new_bounds_hold_one_position() {
    let extremes = IVerticesExtremes::new(1, 2, 3);
    assert_eq!(extremes.x, IExtreme { min: 1, max: 1 });
    assert_eq!(extremes.y, IExtreme { min: 2, max: 2 });
    assert_eq!(extremes.z, IExtreme { min: 3, max: 3 });
    assert_eq!(extremes.to_vec(), vec![vec![1, 2, 3], vec![1, 2, 3]]);
}

#[test]
fn the_bounds_are_the_least_and_the_greatest_on_each_axis() {
    let vertices = vec![
        vertex(1.0, -2.0, 0.5),
        vertex(-3.0, 4.0, 0.25),
        vertex(2.0, 0.0, -8.0),
        vertex(0.0, 4.0, 0.5),
    ];
    let extremes = IVerticesExtremes::measure(&vertices).unwrap();
    let corners = extremes.to_vec();
    let floats = |corner: &Vec<u32>| -> Vec<f32> {
        corner.iter().map(|bits| f32::from_bits(*bits)).collect()
    };
    assert_eq!(floats(&corners[0]), vec![-3.0, -2.0, -8.0]);
    assert_eq!(floats(&corners[1]), vec![2.0, 4.0, 0.5]);
    assert_eq!(IVerticesExtremes::measure(&Vec::new()), None);
    let one = IVerticesExtremes::measure(&vec![vertex(7.0, 8.0, 9.0)]).unwrap();
    assert_eq!(floats(&one.to_vec()[0]), vec![7.0, 8.0, 9.0]);
    assert_eq!(floats(&one.to_vec()[1]), vec![7.0, 8.0, 9.0]);
}

#[test]
fn what_is_not_a_number_never_moves_a_bound_and_never_leaves_one() {
    let later = IVerticesExtremes::measure(&vec![
        vertex(1.0, 1.0, 1.0),
        vertex(f32::NAN, 2.0, 0.0),
        vertex(3.0, f32::NAN, 5.0),
    ])
    .unwrap();
    assert_eq!(f32::from_bits(later.x.min), 1.0);
    assert_eq!(f32::from_bits(later.x.max), 3.0);
    assert_eq!(f32::from_bits(later.y.max), 2.0);
    assert_eq!(f32::from_bits(later.z.min), 0.0);

    let first =
        IVerticesExtremes::measure(&vec![vertex(f32::NAN, 1.0, 1.0), vertex(3.0, 0.0, 2.0)])
            .unwrap();
    assert!(f32::from_bits(first.x.min).is_nan());
    assert!(f32::from_bits(first.x.max).is_nan());
    assert_eq!(f32::from_bits(first.y.min), 0.0);
}

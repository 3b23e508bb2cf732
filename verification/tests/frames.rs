use half::f16;
use ism2::frenet::Direction;
use ism2::model_data::{FrenetFrame, Vector3D};

fn length(vector: &Vector3D<u16>) -> f32 {
    let x = f16::from_bits(vector.x).to_f32();
    let y = f16::from_bits(vector.y).to_f32();
    let z = f16::from_bits(vector.z).to_f32();
    (x.powi(2) + y.powi(2) + z.powi(2)).sqrt()
}

fn expected(vector: &Vector3D<u16>) -> Direction {
    if length(vector).is_normal() {
        Direction::Scaled
    } else {
        Direction::Zero
    }
}

#[test]
fn a_vector_of_length_zero_becomes_the_zero_vector() {
    for x in [0x0000, 0x8000] {
        for y in [0x0000, 0x8000] {
            for z in [0x0000, 0x8000] {
                let zero = Vector3D { x, y, z };
                assert_eq!(zero.direction(), Direction::Zero);
                assert_eq!(length(&zero), 0.0);
                let frame = FrenetFrame { normal: zero, tangent: Vector3D { x: 1, y: 0, z: 0 } };
                assert!(frame.has_anomalous_normal());
            }
        }
    }
    let frame = FrenetFrame {
        normal: Vector3D { x: 0x3C00, y: 0, z: 0 },
        tangent: Vector3D { x: 0, y: 0, z: 0 },
    };
    assert!(!frame.has_anomalous_normal());
    assert_eq!(frame.tangent.direction(), Direction::Zero);
}

#[test]
fn a_vector_is_scaled_exactly_when_its_length_is_a_normal_number() {
    for bits in 0..=0xFFFFu16 {
        for vector in [
            Vector3D { x: bits, y: 0, z: 0 },
            Vector3D { x: 0x8000, y: bits, z: 0 },
            Vector3D { x: 0, y: 0, z: bits },
            Vector3D { x: bits, y: bits, z: bits },
            Vector3D { x: 0x7BFF, y: bits, z: 0xFBFF },
            Vector3D { x: 0x0001, y: 0x8001, z: bits },
            Vector3D { x: bits, y: 0x7C00, z: 0x3C00 },
            Vector3D { x: 0x3C00, y: 0x7E00, z: bits },
        ] {
            assert_eq!(vector.direction(), expected(&vector), "{:?}", vector);
        }
    }
}

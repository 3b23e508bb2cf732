//! The axis-aligned bounds of the positions of a model.

use vstd::prelude::*;
use crate::model_data::VertexGeometry;
use crate::single::{gt, is_nan, less, lt, ordinal};

verus! {

/// The least and the greatest of the numbers seen so far on one axis, as single-precision
/// bit patterns.
#[derive(Clone, Copy, Debug, PartialEq, Eq)]
pub struct IExtreme {
    pub min: u32,
    pub max: u32,
}

/// The bounds on the three axes.
#[derive(Clone, Copy, Debug, PartialEq, Eq)]
pub struct IVerticesExtremes {
    pub x: IExtreme,
    pub y: IExtreme,
    pub z: IExtreme,
}

impl IExtreme {
    /// The bounds after `value` was seen: a bound moves only when `value` lies strictly
    /// beyond it.
    pub open spec fn updated(self, value: u32) -> IExtreme {
        IExtreme {
            min: if less(value, self.min) {
                value
            } else {
                self.min
            },
            max: if less(self.max, value) {
                value
            } else {
                self.max
            },
        }
    }

    /// The bounds of `values`, which are seen in order, the first of them starting both
    /// bounds.
    pub open spec fn of(values: Seq<u32>) -> IExtreme
        recommends
            values.len() > 0,
        decreases values.len(),
    {
        if values.len() <= 1 {
            IExtreme { min: values[0], max: values[0] }
        } else {
            IExtreme::of(values.drop_last()).updated(values.last())
        }
    }

    /// Takes `value` into the bounds.
    pub fn update(&mut self, value: u32)
        ensures
            *final(self) == old(self).updated(value),
    {
        if gt(self.min, value) {
            self.min = value
        }
        if lt(self.max, value) {
            self.max = value
        }
    }

    /// Where every value is a number, the bounds of the values are two of the values, the
    /// first no greater and the second no less than any value.
    pub proof fn lemma_of_bounds(values: Seq<u32>)
        requires
            values.len() > 0,
            forall|i: int| 0 <= i < values.len() ==> !is_nan(#[trigger] values[i]),
        ensures
            values.contains(IExtreme::of(values).min),
            values.contains(IExtreme::of(values).max),
            forall|i: int|
                0 <= i < values.len() ==> ordinal(IExtreme::of(values).min) <= ordinal(
                    #[trigger] values[i],
                ) <= ordinal(IExtreme::of(values).max),
        decreases values.len(),
    {
        if values.len() > 1 {
            let before = values.drop_last();
            IExtreme::lemma_of_bounds(before);
            let bounds = IExtreme::of(before);
            let i_min = choose|i: int| 0 <= i < before.len() && before[i] == bounds.min;
            let i_max = choose|i: int| 0 <= i < before.len() && before[i] == bounds.max;
            assert(values[i_min] == bounds.min);
            assert(values[i_max] == bounds.max);
            assert(values[values.len() - 1] == values.last());
            assert forall|i: int| 0 <= i < values.len() implies ordinal(
                IExtreme::of(values).min,
            ) <= ordinal(#[trigger] values[i]) <= ordinal(IExtreme::of(values).max) by {
                if i < before.len() {
                    assert(before[i] == values[i]);
                }
            }
        } else {
            assert(values[0] == IExtreme::of(values).min);
        }
    }
}

/// The first components of the positions of `vertices`.
pub open spec fn xs(vertices: Seq<VertexGeometry>) -> Seq<u32> {
    vertices.map_values(|v: VertexGeometry| v.position_coordinates.x)
}

/// The second components of the positions of `vertices`.
pub open spec fn ys(vertices: Seq<VertexGeometry>) -> Seq<u32> {
    vertices.map_values(|v: VertexGeometry| v.position_coordinates.y)
}

/// The third components of the positions of `vertices`.
pub open spec fn zs(vertices: Seq<VertexGeometry>) -> Seq<u32> {
    vertices.map_values(|v: VertexGeometry| v.position_coordinates.z)
}

impl IVerticesExtremes {
    /// Bounds that hold the one position `(x, y, z)`.
    pub fn new(x: u32, y: u32, z: u32) -> (extremes: IVerticesExtremes)
        ensures
            extremes == (IVerticesExtremes {
                x: IExtreme { min: x, max: x },
                y: IExtreme { min: y, max: y },
                z: IExtreme { min: z, max: z },
            }),
    {
        IVerticesExtremes {
            x: IExtreme { min: x, max: x },
            y: IExtreme { min: y, max: y },
            z: IExtreme { min: z, max: z },
        }
    }

    /// The least corner, then the greatest corner.
    pub fn to_vec(&self) -> (corners: Vec<Vec<u32>>)
        ensures
            corners@.len() == 2,
            corners@[0]@ == seq![self.x.min, self.y.min, self.z.min],
            corners@[1]@ == seq![self.x.max, self.y.max, self.z.max],
    {
        let mut least: Vec<u32> = Vec::new();
        least.push(self.x.min);
        least.push(self.y.min);
        least.push(self.z.min);
        let mut greatest: Vec<u32> = Vec::new();
        greatest.push(self.x.max);
        greatest.push(self.y.max);
        greatest.push(self.z.max);
        let mut corners: Vec<Vec<u32>> = Vec::new();
        corners.push(least);
        corners.push(greatest);
        assert(corners@[0]@ =~= seq![self.x.min, self.y.min, self.z.min]);
        assert(corners@[1]@ =~= seq![self.x.max, self.y.max, self.z.max]);
        corners
    }

    /// The bounds of the positions of `vertices`, axis by axis.
    pub open spec fn of(vertices: Seq<VertexGeometry>) -> IVerticesExtremes
        recommends
            vertices.len() > 0,
    {
        IVerticesExtremes {
            x: IExtreme::of(xs(vertices)),
            y: IExtreme::of(ys(vertices)),
            z: IExtreme::of(zs(vertices)),
        }
    }

    /// The bounds of the positions of `vertices` in one pass, or `None` where there is no
    /// vertex.
    pub fn measure(vertices: &Vec<VertexGeometry>) -> (extremes: Option<IVerticesExtremes>)
        ensures
            vertices@.len() == 0 ==> extremes is None,
            vertices@.len() > 0 ==> extremes == Some(IVerticesExtremes::of(vertices@)),
    {
        if vertices.len() == 0 {
            return None;
        }
        let first = &vertices[0].position_coordinates;
        let mut extremes: IVerticesExtremes = IVerticesExtremes::new(first.x, first.y, first.z);
        let mut i: usize = 0;
        while i < vertices.len()
            invariant
                i <= vertices.len(),
                vertices.len() > 0,
                i == 0 ==> extremes == (IVerticesExtremes {
                    x: IExtreme { min: vertices@[0].position_coordinates.x, max: vertices@[0].position_coordinates.x },
                    y: IExtreme { min: vertices@[0].position_coordinates.y, max: vertices@[0].position_coordinates.y },
                    z: IExtreme { min: vertices@[0].position_coordinates.z, max: vertices@[0].position_coordinates.z },
                }),
                i > 0 ==> extremes == IVerticesExtremes::of(vertices@.take(i as int)),
            decreases vertices.len() - i,
        {
            let position = &vertices[i].position_coordinates;
            extremes.x.update(position.x);
            extremes.y.update(position.y);
            extremes.z.update(position.z);
            proof {
                let now = vertices@.take(i + 1);
                assert(xs(now).last() == position.x);
                assert(ys(now).last() == position.y);
                assert(zs(now).last() == position.z);
                assert(xs(now)[0] == vertices@[0].position_coordinates.x);
                assert(ys(now)[0] == vertices@[0].position_coordinates.y);
                assert(zs(now)[0] == vertices@[0].position_coordinates.z);
                if i > 0 {
                    let before = vertices@.take(i as int);
                    assert(xs(now).drop_last() =~= xs(before));
                    assert(ys(now).drop_last() =~= ys(before));
                    assert(zs(now).drop_last() =~= zs(before));
                }
            }
            i = i + 1;
        }
        assert(vertices@.take(i as int) == vertices@);
        Some(extremes)
    }
}

} // verus!

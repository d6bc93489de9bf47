use theon::adjunct::{
    Converged, Extend, Fold, FromItems, IntoItems, MapItems, Truncate, ZipMap,
};
use theon::matrix::MatrixMN;
use theon::ops::{lerp_one, mul_wide, Blend, Cross, Dot, Interpolate, MulMN};
use theon::point::Point;
use theon::space::{Basis, DualSpace, EuclideanSpace, Matrix, SquareMatrix, VectorSpace};
use theon::vector::Vector;

#[test]
fn cross_of_unit_axes() {
    let x = Vector::new([1, 0, 0]);
    let y = Vector::new([0, 1, 0]);
    assert_eq!(x.cross(y), Vector::new([0, 0, 1]));
}

#[test]
fn cross_is_anticommutative() {
    let a = Vector::new([2, -3, 5]);
    let b = Vector::new([7, 1, -4]);
    let ab = a.cross(b);
    let ba = b.cross(a);
    assert_eq!(ab, Vector::new([7, 43, 23]));
    assert_eq!(ab, ba.map(|x| -x));
    assert_eq!(a.cross(a), Vector::new([0, 0, 0]));
}

#[test]
fn canonical_basis_of_plane() {
    let basis = Vector::<2>::canonical_basis();
    assert_eq!(basis, vec![Vector::new([1, 0]), Vector::new([0, 1])]);
}

#[test]
fn canonical_basis_of_space() {
    let basis = Vector::<4>::canonical_basis();
    assert_eq!(basis.len(), 4);
    for (i, v) in basis.iter().enumerate() {
        for j in 0..4 {
            assert_eq!(v.items[j], if i == j { 1 } else { 0 });
        }
    }
}

#[test]
fn canonical_basis_component_bounds() {
    assert_eq!(
        Vector::<3>::canonical_basis_component(1),
        Some(Vector::new([0, 1, 0]))
    );
    assert_eq!(Vector::<3>::canonical_basis_component(3), None);
}

#[test]
fn lerp_midpoint() {
    let a = Vector::new([0, 0]);
    let b = Vector::new([10, 10]);
    let half = Blend { numer: 1, denom: 2 };
    assert_eq!(a.lerp(b, half), Vector::new([5, 5]));
}

#[test]
fn lerp_ends_and_fixed_point() {
    let a = Vector::new([3, -8, 1]);
    let b = Vector::new([-6, 4, 9]);
    assert_eq!(a.lerp(b, Blend::zero()), a);
    assert_eq!(a.lerp(b, Blend::one()), b);
    assert_eq!(a.lerp(b, Blend { numer: 4, denom: 4 }), b);
    assert_eq!(a.lerp(a, Blend { numer: 7, denom: 3 }), a);
}

#[test]
fn lerp_extrapolates_and_rounds_toward_zero() {
    let a = Vector::new([0, 0]);
    let b = Vector::new([3, -3]);
    assert_eq!(a.lerp(b, Blend { numer: 1, denom: 2 }), Vector::new([1, -1]));
    assert_eq!(a.lerp(b, Blend { numer: 2, denom: 1 }), Vector::new([6, -6]));
    assert_eq!(a.lerp(b, Blend { numer: -1, denom: 1 }), Vector::new([-3, 3]));
    assert_eq!(lerp_one(10, 20, Blend { numer: 3, denom: 10 }), 13);
}

#[test]
fn point_lerp() {
    let a = Point::new([2, 4]);
    let b = Point::new([6, 0]);
    assert_eq!(a.lerp(b, Blend { numer: 1, denom: 4 }), Point::new([3, 3]));
}

#[test]
fn truncate_and_extend_three() {
    let v = Vector::new([1, 2, 3]);
    let (t, x): (Vector<2>, i64) = v.truncate();
    assert_eq!(t, Vector::new([1, 2]));
    assert_eq!(x, 3);
    let w: Vector<3> = Vector::new([1, 2]).extend(3);
    assert_eq!(w, Vector::new([1, 2, 3]));
}

#[test]
fn extend_undoes_truncate() {
    let v = Vector::new([9, -1, 4, 7]);
    let (t, x): (Vector<3>, i64) = v.truncate();
    let w: Vector<4> = t.extend(x);
    assert_eq!(w, v);
    let p = Point::new([5, 6, 7]);
    let (q, z): (Point<2>, i64) = p.truncate();
    assert_eq!(q, Point::new([5, 6]));
    assert_eq!(z, 7);
    let back: Point<3> = q.extend(z);
    assert_eq!(back, p);
}

#[test]
fn from_items_arity_mismatch() {
    assert_eq!(Vector::<3>::from_items(&[1, 2]), None);
    assert_eq!(Vector::<3>::from_items(&[1, 2, 3, 4]), None);
    assert_eq!(Point::<2>::from_items(&[1]), None);
}

#[test]
fn from_items_of_into_items() {
    let v = Vector::new([4, -5, 6]);
    let items = v.into_items();
    assert_eq!(items, vec![4, -5, 6]);
    assert_eq!(Vector::<3>::from_items(&items), Some(v));
    let p = Point::new([8, 9]);
    assert_eq!(Point::<2>::from_items(&p.into_items()), Some(p));
    let empty = Vector::<0>::new([]);
    assert_eq!(empty.into_items(), Vec::<i64>::new());
    assert_eq!(Vector::<0>::from_items(&[]), Some(empty));
}

#[test]
fn map_of_converged() {
    let c = Vector::<3>::converged(4);
    assert_eq!(c, Vector::new([4, 4, 4]));
    assert_eq!(c.map(|x| x * 3 + 1), Vector::<3>::converged(13));
    let p = Point::<2>::converged(-2);
    assert_eq!(p.map(|x| x * x), Point::<2>::converged(4));
}

#[test]
fn fold_runs_first_to_last() {
    let v = Vector::new([1, 2, 3]);
    assert_eq!(v.fold(0i64, |acc, x| acc + x), 6);
    assert_eq!(v.fold(0i64, |acc, x| acc * 10 + x), 123);
    assert_eq!(Point::new([4, 5]).fold(Vec::new(), |mut acc: Vec<i64>, x| {
        acc.push(x);
        acc
    }), vec![4, 5]);
}

#[test]
fn zip_map_pairs_components() {
    let a = Vector::new([1, 2, 3]);
    let b = Vector::new([10, 20, 30]);
    assert_eq!(a.zip_map(b, |x, y| y - x), Vector::new([9, 18, 27]));
    let p = Point::new([1, 1]);
    let q = Point::new([2, 3]);
    assert_eq!(p.zip_map(q, |x, y| x * y), Point::new([2, 3]));
}

#[test]
fn scalar_component_bounds() {
    let v = Vector::new([7, 8, 9]);
    assert_eq!(v.scalar_component(0), Some(7));
    assert_eq!(v.scalar_component(2), Some(9));
    assert_eq!(v.scalar_component(3), None);
    assert_eq!(v.scalar_component(usize::MAX), None);
}

#[test]
fn dot_product() {
    let a = Vector::new([1, 2, 3]);
    let b = Vector::new([4, -5, 6]);
    assert_eq!(a.dot(&b), 12);
    assert_eq!(mul_wide(i64::MAX, i64::MAX), (i64::MAX as i128) * (i64::MAX as i128));
}

#[test]
fn origin_and_coordinates() {
    let o = Point::<3>::origin();
    assert_eq!(o, Point::new([0, 0, 0]));
    let p = Point::new([3, 1, 4]);
    assert_eq!(p.into_coordinates(), Vector::new([3, 1, 4]));
    assert_eq!(*p.as_position(), p);
    let mut q = p;
    q.as_position_mut().coords.items[0] = 5;
    assert_eq!(q, Point::new([5, 1, 4]));
}

#[test]
fn row_component_out_of_range() {
    let m = MatrixMN::<3, 3>::from_columns([[1, 2, 3], [4, 5, 6], [7, 8, 9]]);
    assert_eq!(m.row_component(5), None);
    assert_eq!(m.column_component(3), None);
}

#[test]
fn rows_and_columns() {
    // Columns (1, 2, 3), (4, 5, 6): rows (1, 4), (2, 5), (3, 6).
    let m = MatrixMN::<3, 2>::from_columns([[1, 2, 3], [4, 5, 6]]);
    assert_eq!(m.row_component(0), Some(Vector::new([1, 4])));
    assert_eq!(m.row_component(2), Some(Vector::new([3, 6])));
    assert_eq!(m.row_component(3), None);
    assert_eq!(m.column_component(1), Some(Vector::new([4, 5, 6])));
    assert_eq!(m.column_component(2), None);
}

#[test]
fn transpose_twice() {
    let m = MatrixMN::<3, 2>::from_columns([[1, 2, 3], [4, 5, 6]]);
    let t = m.transpose();
    assert_eq!(t, MatrixMN::<2, 3>::from_columns([[1, 4], [2, 5], [3, 6]]));
    assert_eq!(t.transpose(), m);
}

#[test]
fn identity_products() {
    let id = MatrixMN::<3, 3>::multiplicative_identity();
    assert_eq!(id, MatrixMN::from_columns([[1, 0, 0], [0, 1, 0], [0, 0, 1]]));
    let m = MatrixMN::<3, 3>::from_columns([[2, -1, 0], [5, 3, 8], [-7, 4, 6]]);
    assert_eq!(id.mul_mn(m), m);
    assert_eq!(m.mul_mn(id), m);
    let id2 = MatrixMN::<2, 2>::multiplicative_identity();
    assert_eq!(id2, MatrixMN::from_columns([[1, 0], [0, 1]]));
}

#[test]
fn product_of_rectangular_matrices() {
    // Rows (1, 2, 3) and (4, 5, 6), times rows (7, 8), (9, 10), (11, 12).
    let a = MatrixMN::<2, 3>::from_columns([[1, 4], [2, 5], [3, 6]]);
    let b = MatrixMN::<3, 2>::from_columns([[7, 9, 11], [8, 10, 12]]);
    let p = a.mul_mn(b);
    assert_eq!(p, MatrixMN::<2, 2>::from_columns([[58, 139], [64, 154]]));
}

#[test]
fn matrix_components_run_column_by_column() {
    let m = MatrixMN::<2, 3>::from_columns([[1, 2], [3, 4], [5, 6]]);
    assert_eq!(m.into_items(), vec![1, 2, 3, 4, 5, 6]);
    assert_eq!(m.scalar_component(0), Some(1));
    assert_eq!(m.scalar_component(3), Some(4));
    assert_eq!(m.scalar_component(5), Some(6));
    assert_eq!(m.scalar_component(6), None);
    assert_eq!(m.fold(0i64, |acc, x| acc * 10 + x), 123456);
}

#[test]
fn matrix_from_items() {
    let m = MatrixMN::<2, 3>::from_columns([[1, 2], [3, 4], [5, 6]]);
    assert_eq!(MatrixMN::<2, 3>::from_items(&[1, 2, 3, 4, 5, 6]), Some(m));
    assert_eq!(MatrixMN::<2, 3>::from_items(&m.into_items()), Some(m));
    assert_eq!(MatrixMN::<2, 3>::from_items(&[1, 2, 3, 4, 5]), None);
    assert_eq!(MatrixMN::<2, 3>::from_items(&[1, 2, 3, 4, 5, 6, 7]), None);
    assert_eq!(MatrixMN::<2, 3>::from_items(&[1, 2, 3, 4, 5, 6, 7, 8]), None);
    assert_eq!(MatrixMN::<0, 3>::from_items(&[]), Some(MatrixMN::from_columns([[], [], []])));
    assert_eq!(MatrixMN::<0, 3>::from_items(&[1]), None);
}

#[test]
fn matrix_map_zip_and_lerp() {
    let c = MatrixMN::<2, 2>::converged(3);
    assert_eq!(c, MatrixMN::from_columns([[3, 3], [3, 3]]));
    assert_eq!(c.map(|x| x - 1), MatrixMN::<2, 2>::converged(2));
    let a = MatrixMN::<2, 2>::from_columns([[1, 2], [3, 4]]);
    let b = MatrixMN::<2, 2>::from_columns([[5, 6], [7, 8]]);
    assert_eq!(a.zip_map(b, |x, y| x + y), MatrixMN::from_columns([[6, 8], [10, 12]]));
    assert_eq!(
        a.lerp(b, Blend { numer: 1, denom: 2 }),
        MatrixMN::from_columns([[3, 4], [5, 6]])
    );
    assert_eq!(a.lerp(b, Blend::zero()), a);
    assert_eq!(a.lerp(b, Blend::one()), b);
}

#[test]
fn extend_and_truncate_at_the_ends() {
    let one: Vector<1> = Vector::new([]).extend(8);
    assert_eq!(one, Vector::new([8]));
    let (zero, x): (Vector<0>, i64) = one.truncate();
    assert_eq!(zero, Vector::new([]));
    assert_eq!(x, 8);
    let four: Vector<4> = Vector::new([1, 2, 3]).extend(4);
    assert_eq!(four, Vector::new([1, 2, 3, 4]));
    let p: Point<1> = Point::new([]).extend(2);
    let (q, y): (Point<0>, i64) = p.truncate();
    assert_eq!(q, Point::new([]));
    assert_eq!(y, 2);
}

use fsfill::array::Array;

#[test]
fn array0_equal() {
    let arr1: Array<u32, 0> = Array { 0: [] };

    assert_eq!(arr1, Array { 0: [] });
}

#[test]
fn array1_equal() {
    let mut arr1: Array<u32, 1> = Array { 0: [0] };
    arr1.0[0] = 4;

    assert_eq!(arr1, Array { 0: [4] });
}

#[test]
fn array5_equal() {
    let mut arr1: Array<u32, 5> = Array { 0: [0, 2, 4, 5, 6] };
    arr1.0[0] = 4;

    assert_eq!(arr1, Array { 0: [4, 2, 4, 5, 6] });
}

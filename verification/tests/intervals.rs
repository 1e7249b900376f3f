use dhe::algorithm::intervals::get_distances;

#[test]
fn get_distances_1() {
    let input = vec![2, 1, 3, 1, 2, 3, 3];
    let output = vec![4, 2, 7, 2, 4, 4, 5];
    assert_eq!(output, get_distances(input));
}

#[test]
fn get_distances_2() {
    let input = vec![10, 5, 10, 10];
    let output = vec![5, 0, 3, 4];
    assert_eq!(output, get_distances(input));
}

#[test]
fn get_distances_of_nothing() {
    assert_eq!(Vec::<i64>::new(), get_distances(vec![]));
}

#[test]
fn get_distances_of_one_element() {
    assert_eq!(vec![0], get_distances(vec![7]));
}

#[test]
fn get_distances_of_equal_elements() {
    // position 0: 1 + 2 + 3, position 1: 1 + 1 + 2, ...
    assert_eq!(vec![6, 4, 4, 6], get_distances(vec![-1, -1, -1, -1]));
}

#[test]
fn get_distances_of_distinct_elements() {
    assert_eq!(vec![0, 0, 0], get_distances(vec![i32::MIN, 0, i32::MAX]));
}

#[test]
fn get_distances_agrees_with_adding_up_all_pairs() {
    let mut seed: u64 = 0x9e3779b97f4a7c15;
    let mut next = move |below: u64| {
        seed ^= seed << 13;
        seed ^= seed >> 7;
        seed ^= seed << 17;
        seed % below
    };
    for _ in 0..200 {
        let len = next(50) as usize;
        let values = 1 + next(6);
        let arr: Vec<i32> = (0..len).map(|_| next(values) as i32 - 2).collect();
        let expected: Vec<i64> = (0..len)
            .map(|i| {
                (0..len)
                    .filter(|&j| arr[j] == arr[i])
                    .map(|j| (i as i64 - j as i64).abs())
                    .sum()
            })
            .collect();
        assert_eq!(get_distances(arr), expected);
    }
}

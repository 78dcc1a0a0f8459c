use byte_ring::sort::merge_sort;

#[test]
fn test_empty() {
    let input = [];
    let output = merge_sort(&input);
    assert_eq!(output, []);
}

#[test]
fn test_single() {
    let input = [42];
    let output = merge_sort(&input);
    assert_eq!(output, [42]);
}

#[test]
fn test_sorted() {
    let input = [1, 2, 3, 4, 5];
    let output = merge_sort(&input);
    assert_eq!(output, [1, 2, 3, 4, 5]);
}

#[test]
fn test_reversed() {
    let input = [5, 4, 3, 2, 1];
    let output = merge_sort(&input);
    assert_eq!(output, [1, 2, 3, 4, 5]);
}

#[test]
fn sort_test() {
    let x = [6, 2, 8, 3, 9, 234, 76, 33, 75, 22, 343, 7, 45, 2, 1, 675];
    merge_sort(&x);
}

#[test]
fn sort_keeps_duplicates() {
    let input = [3, 1, 3, 1, 3];
    let output = merge_sort(&input);
    assert_eq!(output, [1, 1, 3, 3, 3]);
}

#[test]
fn sort_full_shuffle() {
    let input = [6, 2, 8, 3, 9, 234, 76, 33, 75, 22, 343, 7, 45, 2, 1, 675];
    let output = merge_sort(&input);
    assert_eq!(
        output,
        [1, 2, 2, 3, 6, 7, 8, 9, 22, 33, 45, 75, 76, 234, 343, 675]
    );
}

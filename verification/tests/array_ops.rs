use array_util::ArrayUtil;

#[test]
fn flatten() {
    assert_eq!(array_util::flatten(vec![vec![1, 2], vec![3, 4]], 2), vec![1, 2, 3, 4]);
}

#[test]
fn pop() {
    assert_eq!(vec![1, 2, 3].pop(), vec![1, 2]);
}

#[test]
fn push() {
    assert_eq!(vec![1, 2].push(3), vec![1, 2, 3]);
}

#[test]
fn remove() {
    assert_eq!(vec![1, 2, 3].remove(1), vec![1, 3]);
}

#[test]
fn reverse() {
    assert_eq!(vec![1, 2, 3].reverse(), vec![3, 2, 1]);
}

#[test]
fn split() {
    let (a, b) = vec![1, 2, 3].split(2);
    assert_eq!(a, vec![1, 2]);
    assert_eq!(b, vec![3]);
}

#[test]
fn flatten_row_major_order() {
    let m = vec![vec![10, 20, 30], vec![40, 50, 60]];
    let flat = array_util::flatten(m.clone(), 3);
    assert_eq!(flat.len(), 6);
    for a in 0..2 {
        for b in 0..3 {
            assert_eq!(flat[a * 3 + b], m[a][b]);
        }
    }
}

#[test]
fn flatten_no_rows() {
    let m: Vec<Vec<i32>> = Vec::new();
    assert_eq!(array_util::flatten(m, 3), Vec::<i32>::new());
}

#[test]
fn flatten_empty_rows() {
    let m: Vec<Vec<i32>> = vec![Vec::new(), Vec::new()];
    assert_eq!(array_util::flatten(m, 0), Vec::<i32>::new());
}

#[test]
fn flatten_single_column() {
    assert_eq!(array_util::flatten(vec![vec![1], vec![2], vec![3]], 1), vec![1, 2, 3]);
}

#[test]
fn pop_to_empty() {
    assert_eq!(vec![7].pop(), Vec::<i32>::new());
}

#[test]
fn push_from_empty() {
    assert_eq!(Vec::<i32>::new().push(5), vec![5]);
}

#[test]
fn push_then_pop_restores() {
    assert_eq!(vec![1, 2].push(3).pop(), vec![1, 2]);
}

#[test]
fn remove_first() {
    assert_eq!(vec![1, 2, 3].remove(0), vec![2, 3]);
}

#[test]
fn remove_last() {
    assert_eq!(vec![1, 2, 3].remove(2), vec![1, 2]);
}

#[test]
fn remove_keeps_relative_order() {
    assert_eq!(vec![9, 8, 7, 6, 5].remove(2), vec![9, 8, 6, 5]);
}

#[test]
fn reverse_empty() {
    assert_eq!(Vec::<i32>::new().reverse(), Vec::<i32>::new());
}

#[test]
fn reverse_single() {
    assert_eq!(vec![4].reverse(), vec![4]);
}

#[test]
fn reverse_twice_restores() {
    assert_eq!(vec![1, 2, 3, 4].reverse().reverse(), vec![1, 2, 3, 4]);
}

#[test]
fn reverse_mirrors_positions() {
    let v = vec![10, 20, 30, 40];
    let r = v.clone().reverse();
    for i in 0..v.len() {
        assert_eq!(r[i], v[v.len() - 1 - i]);
    }
}

#[test]
fn split_at_zero() {
    let (a, b) = vec![1, 2].split(0);
    assert_eq!(a, Vec::<i32>::new());
    assert_eq!(b, vec![1, 2]);
}

#[test]
fn split_at_len() {
    let (a, b) = vec![1, 2].split(2);
    assert_eq!(a, vec![1, 2]);
    assert_eq!(b, Vec::<i32>::new());
}

#[test]
fn split_concat_restores() {
    let v = vec![3, 1, 4, 1, 5];
    let (a, b) = v.clone().split(2);
    let joined: Vec<i32> = a.iter().chain(b.iter()).cloned().collect();
    assert_eq!(joined, v);
}

use mini_rx::misc::frozen_vec::{FrozenSlice, FrozenVec};
use mini_rx::misc::slice_split3::{IterMutSplit3s, IterSplit3s, SliceSplit3};

#[test]
fn test_iteration() {
    let vec = vec!["a", "b", "c", "d"];
    let frozen: FrozenVec<_> = vec.clone().into();

    let mut collected = Vec::new();
    let mut it = frozen.iter();
    while let Some(e) = it.next() {
        collected.push(*e);
    }
    assert_eq!(vec, collected);

    let mut it = frozen.iter();
    for e1 in vec.iter() {
        let e2 = it.next().unwrap();
        assert_eq!(*e1, *e2);
    }

    let mut count = 0;
    let mut it = frozen.iter();
    while let Some(_) = it.next() {
        count += 1;
    }
    assert_eq!(vec.len(), count)
}

#[test]
fn test_accessors() {
    let mut vec: FrozenVec<String> = FrozenVec::new();

    assert_eq!(vec.is_empty(), true);
    assert_eq!(vec.len(), 0);
    assert_eq!(vec.first(), None);
    assert_eq!(vec.last(), None);
    assert_eq!(vec.get(1), None);

    vec.push("a".to_string());
    vec.push("b".to_string());
    vec.push("c".to_string());

    assert_eq!(vec.is_empty(), false);
    assert_eq!(vec.len(), 3);
    assert_eq!(vec.first().map(|s| s.as_str()), Some("a"));
    assert_eq!(vec.last().map(|s| s.as_str()), Some("c"));
    assert_eq!(vec.get(1).map(|s| s.as_str()), Some("b"));
}

#[test]
fn test_binary_search() {
    let vec: FrozenVec<_> = vec!["ab", "cde", "fghij"].into();

    assert_eq!(vec.binary_search(&"cde"), Ok(1));
    assert_eq!(vec.binary_search(&"cdf"), Err(2));
    assert_eq!(vec.binary_search(&"a"), Err(0));
    assert_eq!(vec.binary_search(&"g"), Err(3));

    assert_eq!(vec.binary_search_by_key(&1, |x: &&str| x.len()), Err(0));
    assert_eq!(vec.binary_search_by_key(&3, |x: &&str| x.len()), Ok(1));
    assert_eq!(vec.binary_search_by_key(&4, |x: &&str| x.len()), Err(2));

    assert_eq!(vec.partition_point(|x: &&str| x.len() < 4), 2);
    assert_eq!(vec.partition_point(|_: &&str| false), 0);
    assert_eq!(vec.partition_point(|_: &&str| true), 3);
}

#[test]
fn binary_search_by_finds_every_element_and_every_gap() {
    let vec: FrozenVec<u32> = vec![10, 20, 30, 40, 50, 60, 70].into();
    for (i, x) in [10u32, 20, 30, 40, 50, 60, 70].iter().enumerate() {
        assert_eq!(vec.binary_search_by(|p: &u32| p.cmp(x)), Ok(i));
        assert_eq!(vec.binary_search(x), Ok(i));
    }
    for (i, x) in [5u32, 15, 25, 35, 45, 55, 65, 75].iter().enumerate() {
        assert_eq!(vec.binary_search_by(|p: &u32| p.cmp(x)), Err(i));
    }
    let empty: FrozenVec<u32> = FrozenVec::new();
    assert_eq!(empty.binary_search(&1), Err(0));
    assert_eq!(empty.partition_point(|_: &u32| true), 0);
}

#[test]
fn push_get_and_index_address_the_same_element() {
    let mut vec: FrozenVec<String> = FrozenVec::default();
    assert_eq!(vec.push_get("x".to_string()), "x");
    assert_eq!(vec.push_get("y".to_string()), "y");
    assert_eq!(vec.index(0), "x");
    assert_eq!(vec.get_unchecked(1), "y");
    assert_eq!(vec.len(), 2);
    vec.as_mut()[0] = "z".to_string();
    assert_eq!(vec.index(0), "z");
    assert_eq!(vec.into_vec(), vec!["z".to_string(), "y".to_string()]);
}

#[test]
fn iter_reports_size_hint_and_stops_at_the_end() {
    let vec: FrozenVec<u8> = vec![1, 2].into();
    let mut it = vec.iter();
    assert_eq!(it.size_hint(), (0, Some(2)));
    assert_eq!(it.next(), Some(&1));
    assert_eq!(it.next(), Some(&2));
    assert_eq!(it.next(), None);
    assert_eq!(it.next(), None);
}

#[test]
fn frozen_slice_views_vec_and_slice() {
    let vec: FrozenVec<u8> = vec![7, 8, 9].into();
    let slice = FrozenSlice::from(&vec);
    assert_eq!(slice.len(), 3);
    assert_eq!(slice.get_unchecked(2), &9);
    let copy = slice;
    let mut it = copy.iter();
    assert_eq!(it.size_hint(), (3, Some(3)));
    assert_eq!(it.next(), Some(&7));
    assert_eq!(it.size_hint(), (2, Some(2)));
    assert_eq!(it.next(), Some(&8));
    assert_eq!(it.next(), Some(&9));
    assert_eq!(it.next(), None);

    let plain = [1u8, 2];
    let slice = FrozenSlice::from(&plain[..]);
    assert_eq!(slice.len(), 2);
    assert_eq!(slice.get_unchecked(0), &1);
}

#[test]
fn split3_gives_before_current_after() {
    let v = [1, 2, 3, 4, 5];
    let (before, current, after) = v.split3(2);
    assert_eq!(before, &[1, 2]);
    assert_eq!(current, &3);
    assert_eq!(after, &[4, 5]);

    let (before, current, after) = v.split3(0);
    assert_eq!(before, &[] as &[i32]);
    assert_eq!(current, &1);
    assert_eq!(after, &[2, 3, 4, 5]);

    let (before, current, after) = v.split3(4);
    assert_eq!(before, &[1, 2, 3, 4]);
    assert_eq!(current, &5);
    assert_eq!(after, &[] as &[i32]);
}

#[test]
fn split3_mut_writes_reach_the_slice() {
    let mut v = [1, 2, 3, 4, 5];
    {
        let (before, current, after) = v.split3_mut(1);
        before[0] = 10;
        *current = 20;
        after[2] = 50;
    }
    assert_eq!(v, [10, 20, 3, 4, 50]);
}

#[test]
fn iter_split3s_walks_every_position() {
    let v = [1, 2, 3];
    let mut it: IterSplit3s<'_, i32> = v.iter_split3s();
    assert_eq!(it.size_hint(), (3, Some(3)));
    assert_eq!(it.next(), Some((&[][..], &1, &[2, 3][..])));
    assert_eq!(it.next(), Some((&[1][..], &2, &[3][..])));
    assert_eq!(it.size_hint(), (1, Some(1)));
    assert_eq!(it.next(), Some((&[1, 2][..], &3, &[][..])));
    assert_eq!(it.next(), None);
    assert_eq!(it.count(), 0);
    assert_eq!(v.iter_split3s().count(), 3);
}

#[test]
fn iter_mut_split3s_lets_each_step_write() {
    let mut v = [1, 2, 3];
    {
        let mut it: IterMutSplit3s<'_, i32> = v.iter_mut_split3s();
        assert_eq!(it.size_hint(), (3, Some(3)));
        while let Some((before, current, _after)) = it.next() {
            let sum: i32 = before.iter().sum();
            *current += sum;
        }
        assert_eq!(it.count(), 0);
    }
    assert_eq!(v, [1, 3, 7]);
}

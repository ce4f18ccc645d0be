use ghost_sea::{GhostLinkedList, GhostToken, NodeFamily};

fn drain_front<'id>(
    list: &mut GhostLinkedList<'id, u32>,
    token: &mut GhostToken<'id, NodeFamily<u32>>,
) -> Vec<u32> {
    let mut out = Vec::new();
    while let Some(x) = list.pop_front(token) {
        out.push(x);
    }
    out
}

fn drain_back<'id>(
    list: &mut GhostLinkedList<'id, u32>,
    token: &mut GhostToken<'id, NodeFamily<u32>>,
) -> Vec<u32> {
    let mut out = Vec::new();
    while let Some(x) = list.pop_back(token) {
        out.push(x);
    }
    out
}

fn contents<'id>(
    list: &GhostLinkedList<'id, u32>,
    token: &GhostToken<'id, NodeFamily<u32>>,
) -> Vec<u32> {
    let mut out = Vec::new();
    let mut iter = list.iter(token);
    while let Some(x) = iter.next() {
        out.push(*x);
    }
    out
}

#[test]
fn empty_list_has_nothing() {
    GhostToken::new(|mut token: GhostToken<NodeFamily<u32>>| {
        let mut list: GhostLinkedList<u32> = GhostLinkedList::new();
        assert!(list.is_empty());
        assert_eq!(list.len(&token), 0);
        assert_eq!(list.front(&token), None);
        assert_eq!(list.back(&token), None);
        assert_eq!(list.front_mut(&mut token), None);
        assert_eq!(list.back_mut(&mut token), None);
        assert_eq!(list.pop_front(&mut token), None);
        assert_eq!(list.pop_back(&mut token), None);
        assert!(list.iter(&token).next().is_none());
        assert!(list.iter(&token).next_back().is_none());
    });
}

#[test]
fn push_both_ends_then_pop_both_ends() {
    GhostToken::new(|mut token: GhostToken<NodeFamily<u32>>| {
        let mut list = GhostLinkedList::new();
        assert!(list.is_empty());
        assert_eq!(list.front(&token), None);
        list.push_front(1, &mut token);
        list.push_back(2, &mut token);
        assert_eq!(contents(&list, &token), vec![1, 2]);
        assert_eq!(list.front(&token), Some(&1));
        assert_eq!(list.back(&token), Some(&2));
        assert_eq!(list.pop_front(&mut token), Some(1));
        assert_eq!(contents(&list, &token), vec![2]);
        assert_eq!(list.front(&token), Some(&2));
        assert_eq!(list.back(&token), Some(&2));
        assert_eq!(list.pop_back(&mut token), Some(2));
        assert!(list.is_empty());
        assert_eq!(token.live(), 0);
    });
}

#[test]
fn push_back_then_pop_front_keeps_order() {
    GhostToken::new(|mut token: GhostToken<NodeFamily<u32>>| {
        let mut list = GhostLinkedList::new();
        for x in 0..10u32 {
            list.push_back(x, &mut token);
        }
        assert_eq!(list.len(&token), 10);
        assert_eq!(drain_front(&mut list, &mut token), (0..10).collect::<Vec<u32>>());
        assert!(list.is_empty());
    });
}

#[test]
fn push_front_then_pop_front_reverses_order() {
    GhostToken::new(|mut token: GhostToken<NodeFamily<u32>>| {
        let mut list = GhostLinkedList::new();
        for x in 0..10u32 {
            list.push_front(x, &mut token);
        }
        assert_eq!(list.len(&token), 10);
        assert_eq!(drain_front(&mut list, &mut token), (0..10).rev().collect::<Vec<u32>>());
        assert!(list.is_empty());
    });
}

#[test]
fn push_front_then_pop_back_keeps_order() {
    GhostToken::new(|mut token: GhostToken<NodeFamily<u32>>| {
        let mut list = GhostLinkedList::new();
        for x in 0..5u32 {
            list.push_front(x, &mut token);
        }
        assert_eq!(drain_back(&mut list, &mut token), vec![0, 1, 2, 3, 4]);
    });
}

#[test]
fn clear_empties_the_list_for_good() {
    GhostToken::new(|mut token: GhostToken<NodeFamily<u32>>| {
        let mut list = GhostLinkedList::new();
        for x in 0..7u32 {
            list.push_back(x, &mut token);
        }
        list.clear(&mut token);
        assert!(list.is_empty());
        assert_eq!(list.len(&token), 0);
        assert_eq!(list.pop_front(&mut token), None);
        assert_eq!(list.pop_back(&mut token), None);
        list.clear(&mut token);
        assert!(list.is_empty());
        assert_eq!(token.live(), 0);
    });
}

#[test]
fn single_element_is_front_and_back() {
    GhostToken::new(|mut token: GhostToken<NodeFamily<u32>>| {
        let mut list = GhostLinkedList::new();
        list.push_back(42, &mut token);
        assert_eq!(list.len(&token), 1);
        let front: &u32 = list.front(&token).unwrap();
        let back: &u32 = list.back(&token).unwrap();
        assert!(std::ptr::eq(front, back));
        assert_eq!(list.pop_front(&mut token), Some(42));
        assert!(list.is_empty());

        list.push_front(43, &mut token);
        assert_eq!(list.pop_back(&mut token), Some(43));
        assert!(list.is_empty());
        assert_eq!(list.pop_back(&mut token), None);
    });
}

#[test]
fn length_follows_a_reference_deque() {
    GhostToken::new(|mut token: GhostToken<NodeFamily<u32>>| {
        let mut list = GhostLinkedList::new();
        let mut model = std::collections::VecDeque::new();
        let mut seed: u32 = 12345;
        for step in 0..500u32 {
            seed = seed.wrapping_mul(1664525).wrapping_add(1013904223);
            match (seed >> 16) % 4 {
                0 => {
                    list.push_front(step, &mut token);
                    model.push_front(step);
                }
                1 => {
                    list.push_back(step, &mut token);
                    model.push_back(step);
                }
                2 => assert_eq!(list.pop_front(&mut token), model.pop_front()),
                _ => assert_eq!(list.pop_back(&mut token), model.pop_back()),
            }
            assert_eq!(list.len(&token), model.len());
            assert_eq!(list.is_empty(), model.is_empty());
            assert_eq!(list.front(&token), model.front());
            assert_eq!(list.back(&token), model.back());
            assert_eq!(token.live(), model.len());
        }
        assert_eq!(contents(&list, &token), model.iter().copied().collect::<Vec<u32>>());
    });
}

#[test]
fn every_node_is_freed_once() {
    GhostToken::new(|mut token: GhostToken<NodeFamily<u32>>| {
        let mut list = GhostLinkedList::new();
        assert_eq!(token.live(), 0);
        for x in 0..20u32 {
            list.push_back(x, &mut token);
            assert_eq!(token.live(), x as usize + 1);
        }
        assert_eq!(list.len(&token), 20);
        for left in (0..20usize).rev() {
            assert!(list.pop_front(&mut token).is_some());
            assert_eq!(token.live(), left);
        }
        assert_eq!(list.pop_front(&mut token), None);
        assert_eq!(token.live(), 0);
    });
}

#[test]
fn forward_and_backward_iteration_are_reverses() {
    GhostToken::new(|mut token: GhostToken<NodeFamily<u32>>| {
        let mut list = GhostLinkedList::new();
        for x in [3u32, 1, 4, 1, 5, 9, 2, 6] {
            list.push_back(x, &mut token);
        }
        let forward = contents(&list, &token);
        let mut backward = Vec::new();
        let mut iter = list.iter(&token);
        while let Some(x) = iter.next_back() {
            backward.push(*x);
        }
        assert_eq!(forward, vec![3, 1, 4, 1, 5, 9, 2, 6]);
        backward.reverse();
        assert_eq!(forward, backward);
    });
}

#[test]
fn iteration_from_both_ends_meets_in_the_middle() {
    GhostToken::new(|mut token: GhostToken<NodeFamily<u32>>| {
        let mut list = GhostLinkedList::new();
        for x in 1..=5u32 {
            list.push_back(x, &mut token);
        }
        let mut iter = list.iter(&token);
        assert_eq!(iter.next(), Some(&1));
        assert_eq!(iter.next_back(), Some(&5));
        assert_eq!(iter.next_back(), Some(&4));
        assert_eq!(iter.next(), Some(&2));
        assert_eq!(iter.next(), Some(&3));
        assert_eq!(iter.next(), None);
        assert_eq!(iter.next_back(), None);
        assert_eq!(list.len(&token), 5);
    });
}

#[test]
fn front_mut_and_back_mut_write_the_ends() {
    GhostToken::new(|mut token: GhostToken<NodeFamily<u32>>| {
        let mut list = GhostLinkedList::new();
        for x in 1..=3u32 {
            list.push_back(x, &mut token);
        }
        *list.front_mut(&mut token).unwrap() = 10;
        *list.back_mut(&mut token).unwrap() += 30;
        assert_eq!(contents(&list, &token), vec![10, 2, 33]);
    });
}

#[test]
fn two_lists_share_one_token() {
    GhostToken::new(|mut token: GhostToken<NodeFamily<u32>>| {
        let mut left = GhostLinkedList::new();
        let mut right = GhostLinkedList::new();
        for x in 0..4u32 {
            left.push_back(x, &mut token);
            right.push_front(x + 100, &mut token);
        }
        assert_eq!(left.pop_front(&mut token), Some(0));
        assert_eq!(contents(&left, &token), vec![1, 2, 3]);
        assert_eq!(contents(&right, &token), vec![103, 102, 101, 100]);
        left.clear(&mut token);
        assert_eq!(contents(&right, &token), vec![103, 102, 101, 100]);
        assert_eq!(token.live(), 4);
    });
}

#[test]
fn strings_at_both_ends() {
    GhostToken::new(|mut token: GhostToken<NodeFamily<String>>| {
        let mut list: GhostLinkedList<String> = GhostLinkedList::default();
        assert!(list.is_empty());
        assert_eq!(list.front_mut(&mut token), None);
        assert_eq!(list.back_mut(&mut token), None);
        assert_eq!(list.pop_front(&mut token), None);
        assert_eq!(list.pop_back(&mut token), None);

        list.push_front("Hello, World!".to_string(), &mut token);
        list.push_back("Hello, You!".to_string(), &mut token);

        assert!(!list.is_empty());
        assert_eq!(list.len(&token), 2);
        assert_eq!(list.front(&token).map(|s| s.as_str()), Some("Hello, World!"));
        assert_eq!(list.back(&token).map(|s| s.as_str()), Some("Hello, You!"));
        list.clear(&mut token);
        assert_eq!(token.live(), 0);
    });
}

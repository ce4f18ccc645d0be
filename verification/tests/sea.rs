use ghost_sea::{
    End, GhostApplyMut, GhostApplyRef, GhostLinkedList, GhostSea, GhostToken, NodeFamily, Op,
};

struct PushBack(u32);

impl<'a, 'id> GhostApplyMut<'a, 'id, NodeFamily<u32>, GhostLinkedList<'id, u32>> for PushBack {
    type Output = ();

    fn call(
        self,
        ghost: &'a mut GhostLinkedList<'id, u32>,
        token: &'a mut GhostToken<'id, NodeFamily<u32>>,
    ) {
        ghost.push_back(self.0, token)
    }
}

struct FrontMut;

impl<'a, 'id> GhostApplyMut<'a, 'id, NodeFamily<u32>, GhostLinkedList<'id, u32>> for FrontMut {
    type Output = Option<&'a mut u32>;

    fn call(
        self,
        ghost: &'a mut GhostLinkedList<'id, u32>,
        token: &'a mut GhostToken<'id, NodeFamily<u32>>,
    ) -> Option<&'a mut u32> {
        ghost.front_mut(token)
    }
}

struct Back;

impl<'a, 'id> GhostApplyRef<'a, 'id, NodeFamily<u32>, GhostLinkedList<'id, u32>> for Back {
    type Output = Option<&'a u32>;

    fn call(
        self,
        ghost: &'a GhostLinkedList<'id, u32>,
        token: &'a GhostToken<'id, NodeFamily<u32>>,
    ) -> Option<&'a u32> {
        ghost.back(token)
    }
}

struct Len;

impl<'a, 'id> GhostApplyRef<'a, 'id, NodeFamily<u32>, GhostLinkedList<'id, u32>> for Len {
    type Output = usize;

    fn call(
        self,
        ghost: &'a GhostLinkedList<'id, u32>,
        token: &'a GhostToken<'id, NodeFamily<u32>>,
    ) -> usize {
        ghost.len(token)
    }
}

fn drain<'id>(
    mut list: GhostLinkedList<'id, u32>,
    mut token: GhostToken<'id, NodeFamily<u32>>,
) -> Vec<u32> {
    let mut items = Vec::new();
    while let Some(x) = list.pop_front(&mut token) {
        items.push(x);
    }
    items
}

#[test]
fn sea_applies_readers_and_writers() {
    let items = GhostToken::new(|token: GhostToken<NodeFamily<u32>>| {
        let mut sea = GhostSea::new(GhostLinkedList::new(), token);
        assert_eq!(sea.apply_ref(Len), 0);
        assert_eq!(sea.apply_ref(Back), None);
        sea.apply_mut(PushBack(1));
        sea.apply_mut(PushBack(2));
        assert_eq!(sea.apply_ref(Len), 2);
        assert_eq!(sea.apply_ref(Back), Some(&2));
        *sea.apply_mut(FrontMut).unwrap() = 7;
        sea.apply_once(drain)
    });
    assert_eq!(items, vec![7, 2]);
}

#[test]
fn sea_gives_its_structure_back() {
    GhostToken::new(|token: GhostToken<NodeFamily<u32>>| {
        let sea = GhostSea::new(GhostLinkedList::new(), token);
        let list: GhostLinkedList<u32> = sea.into_inner();
        assert!(list.is_empty());
    });
}

#[test]
fn combine_mut_moves_elements_over() {
    GhostToken::new(|left_token: GhostToken<NodeFamily<u32>>| {
        GhostToken::new(|right_token: GhostToken<NodeFamily<u32>>| {
            let mut left = GhostSea::new(GhostLinkedList::new(), left_token);
            let mut right = GhostSea::new(GhostLinkedList::new(), right_token);
            left.apply_mut(PushBack(1));
            right.apply_mut(PushBack(2));
            right.apply_mut(PushBack(3));
            let moved = left.combine_mut(right, |list, other, token| {
                let items = other.apply_once(drain);
                for x in items.iter() {
                    list.push_back(*x, token);
                }
                items.len()
            });
            assert_eq!(moved, 2);
            assert_eq!(left.apply_ref(Len), 3);
            assert_eq!(left.apply_ref(Back), Some(&3));
            assert_eq!(left.apply_once(drain), vec![1, 2, 3]);
        })
    });
}

#[test]
fn combine_ref_reads_both() {
    GhostToken::new(|left_token: GhostToken<NodeFamily<u32>>| {
        GhostToken::new(|right_token: GhostToken<NodeFamily<u32>>| {
            let mut left = GhostSea::new(GhostLinkedList::new(), left_token);
            let mut right = GhostSea::new(GhostLinkedList::new(), right_token);
            left.apply_mut(PushBack(1));
            right.apply_mut(PushBack(2));
            let sum = left.combine_ref(right, |list, other, token| {
                list.front(token).copied().unwrap_or(0)
                    + other.apply_ref(Back).copied().unwrap_or(0)
            });
            assert_eq!(sum, 3);
        })
    });
}

#[test]
fn combine_once_consumes_both() {
    GhostToken::new(|left_token: GhostToken<NodeFamily<u32>>| {
        GhostToken::new(|right_token: GhostToken<NodeFamily<u32>>| {
            let mut left = GhostSea::new(GhostLinkedList::new(), left_token);
            let mut right = GhostSea::new(GhostLinkedList::new(), right_token);
            left.apply_mut(PushBack(4));
            right.apply_mut(PushBack(5));
            let total = left.combine_once(right, |mut list, other, mut token| {
                let mine = list.pop_back(&mut token).unwrap();
                let theirs = other.apply_once(drain);
                mine * 10 + theirs[0]
            });
            assert_eq!(total, 45);
        })
    });
}

#[test]
fn queue_operations_write_the_list() {
    GhostToken::new(|token: GhostToken<NodeFamily<u32>>| {
        let mut sea = GhostSea::new(GhostLinkedList::new(), token);
        assert_eq!(sea.apply_ref(End::Front), None);
        assert_eq!(sea.apply_ref(End::Back), None);
        assert_eq!(sea.apply_mut(Op::PopFront), None);
        assert_eq!(sea.apply_mut(Op::PushFront(1)), None);
        assert_eq!(sea.apply_mut(Op::PushBack(2)), None);
        assert_eq!(sea.apply_mut(Op::PushFront(0)), None);
        assert_eq!(sea.apply_ref(End::Front), Some(&0));
        assert_eq!(sea.apply_ref(End::Back), Some(&2));
        assert_eq!(sea.apply_ref(Len), 3);
        assert_eq!(sea.apply_mut(Op::PopBack), Some(2));
        assert_eq!(sea.apply_mut(Op::PopFront), Some(0));
        assert_eq!(sea.apply_mut(Op::PopFront), Some(1));
        assert_eq!(sea.apply_mut(Op::PopBack), None);
        assert_eq!(sea.apply_ref(Len), 0);
    });
}

use std::sync::atomic::{AtomicUsize, Ordering};
use std::sync::Arc;

use osom_asm_x86_64::inline_vec::InlineVec;

#[test]
fn test_inlined_array() {
    const MAX: usize = 100;
    let mut vec = Vec::<u32>::with_capacity(MAX);
    let mut arr = InlineVec::<u32, 5>::new();

    for i in 0..MAX {
        let no = i as u32;
        vec.push(no);
        arr.push(no);
        assert_eq!(arr.len(), vec.len());
        assert_eq!(arr.as_slice(), vec.as_slice());
    }
}

#[derive(Debug, Clone)]
struct Counted {
    counter: Arc<AtomicUsize>,
}

impl Drop for Counted {
    fn drop(&mut self) {
        self.counter.fetch_add(1, Ordering::SeqCst);
    }
}

fn run_drop_check<const N: usize>() {
    const MAX: usize = 100;
    let counter = Arc::new(AtomicUsize::new(0));
    let mut arr = InlineVec::<Counted, N>::new();
    for _ in 0..MAX {
        let item = Counted {
            counter: counter.clone(),
        };
        arr.push(item);
    }
    assert_eq!(counter.load(Ordering::SeqCst), 0);
    drop(arr);
    assert_eq!(counter.load(Ordering::SeqCst), MAX);
}

#[test]
fn test_inlined_array_drop() {
    run_drop_check::<1>();
    run_drop_check::<5>();
    run_drop_check::<25>();
    run_drop_check::<100>();
    run_drop_check::<250>();
    run_drop_check::<1000>();
}

#[test]
fn test_inlined_array_capacity_growth() {
    let mut arr = InlineVec::<u8, 4>::new();
    assert_eq!(arr.capacity(), 4);
    for i in 0..4 {
        arr.push(i);
    }
    assert_eq!(arr.capacity(), 4);
    arr.push(4);
    assert_eq!(arr.capacity(), 8);
    for i in 5..9 {
        arr.push(i);
    }
    assert_eq!(arr.capacity(), 16);
    assert_eq!(arr.len(), 9);
    assert_eq!(*arr.get(7), 7);
}

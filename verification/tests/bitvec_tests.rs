use rustos::bitvec::BitList;
use rustos::bitvec::BitVec;
use rustos::bitvec::AtomicBitVec;

#[test]
fn set_clear_check() {
    let mut v = BitVec::new();
    assert!(v.is_empty());
    v.set(3);
    assert!(v.check(3));
    assert!(!v.check(4));
    assert!(v.is_populated());
    v.clear(3);
    assert!(!v.check(3));
    assert!(v.is_empty());
}

#[test]
fn toggle_twice_restores() {
    let mut v = BitVec::init(0b1010);
    v.toggle(1);
    assert!(!v.check(1));
    v.toggle(1);
    assert!(v.check(1));
    assert_eq!(v.raw(), 0b1010);
}

#[test]
fn find_highest_and_first() {
    let v = BitVec::init(0b0101_1000);
    assert_eq!(v.find_highest_set(), Ok(6));
    assert_eq!(v.find_first_set(), Ok(3));
    assert_eq!(BitVec::new().find_highest_set(), Err(()));
    assert_eq!(BitVec::new().find_first_set(), Err(()));
}

#[test]
fn find_first_zero() {
    let v = BitVec::init(0b0111);
    assert_eq!(v.find_first_zero(), Ok(3));
    assert_eq!(BitVec::init(u32::MAX).find_first_zero(), Err(()));
    assert_eq!(BitVec::new().find_first_zero(), Ok(0));
}

#[test]
fn counts() {
    let v = BitVec::init(0b1011);
    assert_eq!(v.count_ones(), 3);
    assert_eq!(v.count_zeroes(), 29);
    assert_eq!(BitVec::init(u32::MAX).count_ones(), 32);
}

#[test]
fn set_algebra() {
    let mut a = BitVec::init(0b1100);
    let b = BitVec::init(0b1010);
    a.and(&b);
    assert_eq!(a.raw(), 0b1000);
    let mut c = BitVec::init(0b1100);
    c.or(&b);
    assert_eq!(c.raw(), 0b1110);
    let mut d = BitVec::init(0b1100);
    d.xor(&b);
    assert_eq!(d.raw(), 0b0110);
}

#[test]
fn difference_superset_intersects() {
    let a = BitVec::init(0b1110);
    let b = BitVec::init(0b0110);
    assert!(a.superset_of(&b));
    assert!(!b.superset_of(&a));
    assert!(a.intersects(&b));
    let d = b.difference(&a);
    assert_eq!(d.raw(), 0b1000);
    assert!(!BitVec::new().intersects(&a));
}

#[test]
fn reverse_bits() {
    let v = BitVec::init(1);
    let r = v.reverse();
    assert!(r.check(31));
    assert!(!r.check(0));
}

#[test]
fn first_zero_and_one_helpers() {
    let mut v = BitVec::init(0b0011);
    v.set_first_zero();
    assert_eq!(v.raw(), 0b0111);
    let mut w = BitVec::init(0b0110);
    w.clear_first_one();
    assert_eq!(w.raw(), 0b0100);
}

#[test]
fn atomic_mirrors_plain() {
    let mut v = AtomicBitVec::new();
    v.set(5);
    assert!(v.check(5));
    assert_eq!(v.find_highest_set(), Ok(5));
    v.or_raw(0b11);
    assert_eq!(v.raw(), 0b10_0011);
    v.and_raw(0b11);
    assert_eq!(v.raw(), 0b11);
    v.write_raw(7);
    assert_eq!(v.count_ones(), 3);
    v.reset();
    assert!(v.is_empty());
}

#[test]
fn bitlist_insert_get_remove() {
    let mut l: BitList<u64> = BitList::new();
    assert_eq!(l.space_used(), 0);
    assert_eq!(l.size(), 32);
    let a = l.insert(41).unwrap();
    let b = l.insert(42).unwrap();
    assert_eq!(a, 0);
    assert_eq!(b, 1);
    assert_eq!(l.get(0), Ok(&41));
    assert_eq!(l.get(1), Ok(&42));
    assert_eq!(l.get(2), Err(()));
    assert_eq!(l.space_used(), 2);
    assert_eq!(l.space_left(), 30);
    assert_eq!(l.remove(0), Ok(41));
    assert_eq!(l.get(0), Err(()));
    assert_eq!(l.remove(0), Err(()));
}

#[test]
fn bitlist_insert_at_refuses_taken_slot() {
    let mut l: BitList<u64> = BitList::new();
    assert_eq!(l.insert_at(7, 10), Ok(7));
    assert_eq!(l.insert_at(7, 11), Err(11));
    assert_eq!(l.insert_at(32, 12), Err(12));
}

#[test]
fn bitlist_fuse_prefers_self() {
    let mut a: BitList<u64> = BitList::new();
    let mut b: BitList<u64> = BitList::new();
    assert!(a.insert_at(0, 100).is_ok());
    assert!(a.insert_at(1, 101).is_ok());
    assert!(b.insert_at(1, 201).is_ok());
    assert!(b.insert_at(2, 202).is_ok());
    assert!(a.intersects(&b));
    let wasted = a.fuse(b);
    assert_eq!(wasted, 1);
    assert_eq!(a.get(0), Ok(&100));
    assert_eq!(a.get(1), Ok(&101));
    assert_eq!(a.get(2), Ok(&202));
}

#[test]
fn set_bits_walk_highest_first() {
    let v = BitVec::init(0b1001_0010);
    assert_eq!(v.set_bits_descending(), vec![7, 4, 1]);
    assert_eq!(BitVec::new().set_bits_descending(), Vec::<usize>::new());
}

#[test]
fn bitlist_get_mut_updates_in_place() {
    let mut l: BitList<u64> = BitList::new();
    assert!(l.insert_at(3, 30).is_ok());
    match l.get_mut(3) {
        Ok(m) => *m = 31,
        Err(()) => panic!("slot should be occupied"),
    }
    assert_eq!(l.get(3), Ok(&31));
    assert!(l.get_mut(9).is_err());
}

#[test]
fn bitlist_walks_occupied_slots_highest_first() {
    let mut l: BitList<u64> = BitList::new();
    assert!(l.insert_at(2, 20).is_ok());
    assert!(l.insert_at(9, 90).is_ok());
    assert!(l.insert_at(5, 50).is_ok());
    let slots = l.occupied_slots();
    assert_eq!(slots, vec![9, 5, 2]);
    let mut seen: Vec<u64> = Vec::new();
    for i in slots {
        seen.push(*l.get(i).unwrap());
    }
    assert_eq!(seen, vec![90, 50, 20]);
}

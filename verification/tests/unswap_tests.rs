use unswap::Element;
use unswap::Error;
use unswap::OsImpl;
use unswap::PAGE_SIZE;
use unswap::UnixImpl;
use unswap::UnswapArray;
use unswap::round_up_to_page;
use unswap::supports_alignment;

#[test]
fn round_up_exact_values() {
    assert_eq!(round_up_to_page(0), Some(0));
    assert_eq!(round_up_to_page(1), Some(PAGE_SIZE));
    assert_eq!(round_up_to_page(PAGE_SIZE), Some(PAGE_SIZE));
    assert_eq!(round_up_to_page(PAGE_SIZE + 1), Some(2 * PAGE_SIZE));
    assert_eq!(round_up_to_page(2 * PAGE_SIZE - 1), Some(2 * PAGE_SIZE));
    assert_eq!(round_up_to_page(80), Some(PAGE_SIZE));
    assert_eq!(round_up_to_page(usize::MAX), None);
    assert_eq!(round_up_to_page(usize::MAX - (PAGE_SIZE - 1)), Some(usize::MAX - (PAGE_SIZE - 1)));
}

#[test]
fn alloc_pages_misaligned_fails() {
    let r = UnixImpl::alloc_pages(100);
    assert!(matches!(r, Err(Error::AlignError)));
    let r = UnixImpl::alloc_pages(PAGE_SIZE + 1);
    assert!(matches!(r, Err(Error::AlignError)));
}

#[test]
fn alloc_pages_zero_fails() {
    let r = UnixImpl::alloc_pages(0);
    assert!(matches!(r, Err(Error::AlignError)));
}

#[test]
fn reserve_then_release_never_fails() {
    let region = UnixImpl::alloc_pages(PAGE_SIZE).expect("reserving one page failed");
    assert_eq!(region.len(), PAGE_SIZE);
    UnixImpl::free_pages(region);
}

#[test]
fn fresh_region_is_zero_filled() {
    let region = UnixImpl::alloc_pages(PAGE_SIZE).expect("reserving one page failed");
    assert_eq!(region.read_byte(0), 0);
    assert_eq!(region.read_byte(1), 0);
    assert_eq!(region.read_byte(PAGE_SIZE - 1), 0);
    UnixImpl::free_pages(region);
}

#[test]
fn region_write_then_read_back() {
    let mut region = UnixImpl::alloc_pages(PAGE_SIZE).expect("reserving one page failed");
    region.write_byte(5, 9);
    assert_eq!(region.read_byte(5), 9);
    assert_eq!(region.read_byte(4), 0);
    assert_eq!(region.read_byte(6), 0);
    UnixImpl::free_pages(region);
}

#[test]
fn two_pages_reserved_and_released() {
    let region = UnixImpl::alloc_pages(2 * PAGE_SIZE).expect("reserving two pages failed");
    assert_eq!(region.len(), 2 * PAGE_SIZE);
    UnixImpl::free_pages(region);
}

#[test]
fn ten_integers_seeded_with_zero_then_set_element_five() {
    let mut arr = UnswapArray::<u64>::new(0, 10).expect("allocation failed");
    assert_eq!(arr.len(), 10);
    for i in 0..10 {
        assert_eq!(arr.get(i), 0);
    }
    arr.set(5, 42);
    let expected: Vec<u64> = vec![0, 0, 0, 0, 0, 42, 0, 0, 0, 0];
    assert_eq!(arr.to_vec(), expected);
}

#[test]
fn every_element_equals_the_prototype() {
    let arr = UnswapArray::<u32>::new(0xDEAD_BEEF, 7).expect("allocation failed");
    assert_eq!(arr.len(), 7);
    for i in 0..7 {
        assert_eq!(arr.get(i), 0xDEAD_BEEF);
    }
    let arr = UnswapArray::<u8>::new(7, 3).expect("allocation failed");
    assert_eq!(arr.to_vec(), vec![7, 7, 7]);
}

#[test]
fn mutating_one_element_changes_no_other() {
    let mut arr = UnswapArray::<u32>::new(1, 5).expect("allocation failed");
    arr.set(2, 1000);
    arr.set(4, 2000);
    assert_eq!(arr.to_vec(), vec![1, 1, 1000, 1, 2000]);
    arr.set(2, 3000);
    assert_eq!(arr.to_vec(), vec![1, 1, 3000, 1, 2000]);
}

#[test]
fn adjacent_slots_do_not_alias() {
    let mut arr = UnswapArray::<u8>::new(0, 3).expect("allocation failed");
    arr.set(1, 0xFF);
    assert_eq!(arr.get(0), 0);
    assert_eq!(arr.get(1), 0xFF);
    assert_eq!(arr.get(2), 0);
}

#[test]
fn alignment_beyond_one_page_is_unsupported() {
    assert!(supports_alignment(1));
    assert!(supports_alignment(8));
    assert!(supports_alignment(PAGE_SIZE));
    assert!(!supports_alignment(PAGE_SIZE + 1));
    assert!(!supports_alignment(2 * PAGE_SIZE));
}

#[test]
fn element_encodings_round_trip() {
    let v: u64 = 0x0102_0304_0506_0708;
    let bytes = v.encode();
    assert_eq!(bytes, vec![0x08, 0x07, 0x06, 0x05, 0x04, 0x03, 0x02, 0x01]);
    assert_eq!(u64::decode(&bytes), v);

    let w: u32 = 0xA1B2_C3D4;
    let bytes = w.encode();
    assert_eq!(bytes, vec![0xD4, 0xC3, 0xB2, 0xA1]);
    assert_eq!(u32::decode(&bytes), w);

    let b: u8 = 0x5E;
    assert_eq!(u8::decode(&b.encode()), b);
}

#[test]
fn element_layouts() {
    assert_eq!(<u8 as Element>::size(), 1);
    assert_eq!(<u32 as Element>::size(), 4);
    assert_eq!(<u64 as Element>::size(), 8);
    assert_eq!(<u8 as Element>::align(), 1);
    assert_eq!(<u32 as Element>::align(), 4);
    assert_eq!(<u64 as Element>::align(), 8);
}

#[test]
fn one_element_array_occupies_one_page() {
    let arr = UnswapArray::<u8>::new(0xAB, 1).expect("allocation failed");
    assert_eq!(arr.len(), 1);
    assert_eq!(arr.get(0), 0xAB);
}

use loader::addr::align_down;
use loader::addr::align_up;
use loader::addr::is_power_of_two;
use loader::addr::PAGE_SIZE_4K;

#[test]
fn align_to_pages() {
    assert_eq!(align_down(0x12345678, PAGE_SIZE_4K), 0x12345000);
    assert_eq!(align_up(0x12345678, PAGE_SIZE_4K), 0x12346000);
    assert_eq!(align_down(0x2000, PAGE_SIZE_4K), 0x2000);
    assert_eq!(align_up(0x2000, PAGE_SIZE_4K), 0x2000);
    assert_eq!(align_up(0, PAGE_SIZE_4K), 0);
    assert_eq!(align_down(0xfff, PAGE_SIZE_4K), 0);
    assert_eq!(align_up(1, PAGE_SIZE_4K), 0x1000);
}

#[test]
fn align_to_other_granularities() {
    assert_eq!(align_down(37, 8), 32);
    assert_eq!(align_up(37, 8), 40);
    assert_eq!(align_down(37, 1), 37);
    assert_eq!(align_up(37, 1), 37);
}

#[test]
fn power_of_two_check() {
    assert!(is_power_of_two(1));
    assert!(is_power_of_two(2));
    assert!(is_power_of_two(0x1000));
    assert!(is_power_of_two(1usize << 40));
    assert!(!is_power_of_two(0));
    assert!(!is_power_of_two(3));
    assert!(!is_power_of_two(0x1800));
}

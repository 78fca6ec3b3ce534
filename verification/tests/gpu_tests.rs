use xr_chaperone::gpu::{choose_swapchain_format, find_memory_type, graphics_queue_family, spirv_words};

#[test]
fn memory_type_respects_filter_and_flags() {
    let flags = [0b001, 0b110, 0b111, 0b010];
    assert_eq!(find_memory_type(&flags, 0b1111, 0b110), Some(1));
    assert_eq!(find_memory_type(&flags, 0b1101, 0b110), Some(2));
    assert_eq!(find_memory_type(&flags, 0b1000, 0b010), Some(3));
    assert_eq!(find_memory_type(&flags, 0b0001, 0b010), None);
    assert_eq!(find_memory_type(&flags, 0, 0), None);
    assert_eq!(find_memory_type(&[], u32::MAX, 0), None);
}

#[test]
fn memory_type_uses_all_thirty_two_bits() {
    let mut flags = vec![0u32; 32];
    flags[31] = 0x4;
    assert_eq!(find_memory_type(&flags, 1 << 31, 0x4), Some(31));
}

#[test]
fn spirv_words_little_endian() {
    let bytes = [0x03, 0x02, 0x23, 0x07, 0x01, 0x00, 0x00, 0x00];
    assert_eq!(spirv_words(&bytes), Some(vec![0x0723_0203, 1]));
    assert_eq!(spirv_words(&[]), Some(vec![]));
    assert_eq!(spirv_words(&[0xff; 4]), Some(vec![u32::MAX]));
}

#[test]
fn spirv_words_rejects_partial_words() {
    assert_eq!(spirv_words(&[1, 2, 3]), None);
    assert_eq!(spirv_words(&[1, 2, 3, 4, 5]), None);
}

#[test]
fn first_graphics_queue_family() {
    assert_eq!(graphics_queue_family(&[0x4, 0x2, 0x7, 0x1]), Some(2));
    assert_eq!(graphics_queue_family(&[0x1]), Some(0));
    assert_eq!(graphics_queue_family(&[0x2, 0x4]), None);
    assert_eq!(graphics_queue_family(&[]), None);
}

#[test]
fn swapchain_format_follows_preference() {
    let preferred = [37, 44, 43, 50];
    assert_eq!(choose_swapchain_format(&preferred, &[50, 44, 1]), Some(44));
    assert_eq!(choose_swapchain_format(&preferred, &[50]), Some(50));
    assert_eq!(choose_swapchain_format(&preferred, &[1, 2]), None);
    assert_eq!(choose_swapchain_format(&[], &[37]), None);
}

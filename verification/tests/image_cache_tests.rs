use wiremann::ids::ImageId;
use wiremann::image_cache::{ImageCache, IMAGE_CACHE_CAPACITY};

#[test]
fn added_image_is_found_and_no_longer_pending() {
    let mut c = ImageCache::new();
    let asked = c.request(&[ImageId(1), ImageId(2), ImageId(1)]);
    assert_eq!(asked, vec![ImageId(1), ImageId(2)]);
    assert_eq!(c.add(ImageId(1), 11), None);
    assert_eq!(c.get(&ImageId(1)), Some(11));
    assert_eq!(c.get(&ImageId(2)), None);
    // 1 is cached, 2 is still pending, 3 is new
    assert_eq!(c.request(&[ImageId(1), ImageId(2), ImageId(3)]), vec![ImageId(3)]);
    // asking again asks for nothing
    assert!(c.request(&[ImageId(1), ImageId(2), ImageId(3)]).is_empty());
}

#[test]
fn replacing_returns_old_handle() {
    let mut c = ImageCache::new();
    assert_eq!(c.add(ImageId(5), 50), None);
    assert_eq!(c.add(ImageId(5), 51), Some(50));
    assert_eq!(c.get(&ImageId(5)), Some(51));
}

#[test]
fn least_recently_used_goes_first() {
    let mut c = ImageCache::new();
    for i in 0..IMAGE_CACHE_CAPACITY as u64 {
        c.add(ImageId(i), i + 1000);
    }
    // touch 0 so that 1 becomes the least recently used
    assert_eq!(c.get(&ImageId(0)), Some(1000));
    assert_eq!(c.add(ImageId(999), 7), None);
    assert_eq!(c.get(&ImageId(1)), None);
    assert_eq!(c.get(&ImageId(0)), Some(1000));
    assert_eq!(c.get(&ImageId(2)), Some(1002));
    assert_eq!(c.get(&ImageId(999)), Some(7));
}

#[test]
fn clear_drops_images_but_keeps_pending() {
    let mut c = ImageCache::new();
    c.request(&[ImageId(8)]);
    c.add(ImageId(9), 90);
    c.clear();
    assert_eq!(c.get(&ImageId(9)), None);
    assert!(c.request(&[ImageId(8)]).is_empty());
    assert_eq!(c.request(&[ImageId(9)]), vec![ImageId(9)]);
}

#[test]
fn current_image() {
    let mut c = ImageCache::new();
    assert_eq!(c.current(), None);
    c.set_current(Some(4));
    assert_eq!(c.current(), Some(4));
}

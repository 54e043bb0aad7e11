use gpio_remote::receive::{GPIOBuf, GPIO_COUNT};
use gpio_remote::Error;

#[test]
fn default_table_has_forty_empty_slots() {
    let buf: GPIOBuf<Option<u32>> = Default::default();
    assert_eq!(GPIO_COUNT, 40);
    for id in 1..=40u16 {
        assert_eq!(buf.index(id), Ok(&None));
    }
}

#[test]
fn index_rejects_identifiers_outside_the_range() {
    let buf: GPIOBuf<Option<u32>> = Default::default();
    assert_eq!(buf.index(0), Err(Error::IDOutOfBounds));
    assert_eq!(buf.index(41), Err(Error::IDOutOfBounds));
    assert_eq!(buf.index(65535), Err(Error::IDOutOfBounds));
}

#[test]
fn index_set_stores_and_reads_back() {
    let mut buf: GPIOBuf<Option<u32>> = Default::default();
    assert_eq!(buf.index_set(1, Some(11)), Ok(()));
    assert_eq!(buf.index_set(40, Some(44)), Ok(()));
    assert_eq!(buf.index(1), Ok(&Some(11)));
    assert_eq!(buf.index(40), Ok(&Some(44)));
    assert_eq!(buf.index(2), Ok(&None));
}

#[test]
fn index_set_rejects_identifiers_outside_the_range() {
    let mut buf: GPIOBuf<Option<u32>> = Default::default();
    assert_eq!(buf.index_set(0, Some(1)), Err(Error::IDOutOfBounds));
    assert_eq!(buf.index_set(41, Some(1)), Err(Error::IDOutOfBounds));
    assert_eq!(buf.index(1), Ok(&None));
}

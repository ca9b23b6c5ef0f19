use posixaccessor::errors::ShmError;
use posixaccessor::outcome::{check_create, check_map, check_resize};

#[test]
fn test_check_create_accepts_positive_descriptor() {
    assert_eq!(check_create(5, 0), Ok(5));
    assert_eq!(check_create(1, 13), Ok(1));
}

#[test]
fn test_check_create_rejects_invalid_descriptor() {
    assert_eq!(check_create(-1, 13), Err(ShmError::CreationFailure(13)));
    assert_eq!(check_create(0, 2), Err(ShmError::CreationFailure(2)));
}

#[test]
fn test_check_resize() {
    assert_eq!(check_resize(0), Ok(()));
    assert_eq!(check_resize(7), Ok(()));
    assert_eq!(check_resize(-1), Err(ShmError::ResizeFailure));
}

#[test]
fn test_check_map() {
    assert_eq!(check_map(0x7f00_1000), Ok(0x7f00_1000));
    assert_eq!(check_map(0), Err(ShmError::MappingFailure));
}

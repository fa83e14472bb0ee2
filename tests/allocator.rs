use vm_device::allocator::{
    DefaultSystemAllocator, Error, IdAllocateParameters, IdAllocator, ResourceAllocator,
    ResourceAllocatorError,
};

#[test]
fn test_allocate() -> Result<(), Error> {
    let mut sys = DefaultSystemAllocator::new();
    let instance_id = IdAllocator::new(1, 100).ok_or(Error::AllocatorExist)?;
    sys.insert_device_id(instance_id)?;

    let parameter = IdAllocateParameters { resource: Some(2) };

    let id = sys.allocate_device_id(parameter)?;
    assert_eq!(id, 2);
    Ok(())
}

#[test]
fn id_allocator_gives_lowest_free() {
    let mut a = IdAllocator::new(1, 4).unwrap();
    assert_eq!(a.allocate(None, 1), Ok(1));
    assert_eq!(a.allocate(Some(3), 1), Ok(3));
    assert_eq!(a.allocate(None, 1), Ok(2));
    assert_eq!(a.allocate(None, 1), Ok(4));
    assert_eq!(a.allocate(None, 1), Err(ResourceAllocatorError::Overflow));
    a.free(3, 1);
    assert_eq!(a.allocate(None, 1), Ok(3));
}

#[test]
fn id_allocator_errors() {
    let mut a = IdAllocator::new(10, 20).unwrap();
    assert_eq!(a.allocate(None, 2), Err(ResourceAllocatorError::SizeInvalid));
    assert_eq!(a.allocate(Some(9), 1), Err(ResourceAllocatorError::OutofScope));
    assert_eq!(a.allocate(Some(21), 1), Err(ResourceAllocatorError::OutofScope));
    assert_eq!(a.allocate(Some(15), 1), Ok(15));
    assert_eq!(a.allocate(Some(15), 1), Err(ResourceAllocatorError::Duplicated));
    a.free(15, 2);
    assert_eq!(a.allocate(Some(15), 1), Err(ResourceAllocatorError::Duplicated));
}

#[test]
fn system_allocator_install_once() {
    let mut sys = DefaultSystemAllocator::new();
    assert_eq!(
        sys.allocate_irq(IdAllocateParameters { resource: None }),
        Err(Error::AllocatorNotExist)
    );
    assert!(sys.insert_irq(IdAllocator::new(5, 6).unwrap()).is_ok());
    assert_eq!(
        sys.insert_irq(IdAllocator::new(5, 6).unwrap()),
        Err(Error::AllocatorExist)
    );
    assert_eq!(sys.allocate_irq(IdAllocateParameters { resource: None }), Ok(5));
    assert_eq!(
        sys.allocate_irq(IdAllocateParameters { resource: Some(5) }),
        Err(Error::IdAllocateError(ResourceAllocatorError::Duplicated))
    );
}

#[test]
fn allocator_error_messages() {
    assert_eq!(
        ResourceAllocatorError::Overflow.to_string(),
        "Resource being allocated is overflow"
    );
    assert_eq!(
        ResourceAllocatorError::SizeInvalid.to_string(),
        "Resource allocation request size is invalid"
    );
}

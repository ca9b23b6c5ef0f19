use crate::errors::ShmError;
use crate::facility::{
    filled_bytes, has_object, object_index, preserves_layout, resize_bytes, store_bytes, Facility,
    FacilityModel, ObjectModel, FACILITY_FULL,
};
use crate::value::{typed_read, ShmValue};
use core::marker::PhantomData;
use vstd::prelude::*;

verus! {

/// Model of a region handle: the recorded name and size, the descriptor
/// (unset until the backing object has been created or opened), and whether
/// a mapping has been established.
pub ghost struct RegionModel {
    pub name: Seq<char>,
    pub size: nat,
    pub descriptor: Option<int>,
    pub mapped: bool,
}

/// Validity of a region handle against a facility state: once mapped, the
/// handle's descriptor addresses an object bearing the handle's name whose
/// length is exactly the handle's size.
pub open spec fn region_valid(r: RegionModel, m: FacilityModel) -> bool {
    r.mapped ==> {
        &&& r.descriptor is Some
        &&& 0 <= r.descriptor->Some_0 < m.objects.len()
        &&& m.objects[r.descriptor->Some_0].name == r.name
        &&& m.objects[r.descriptor->Some_0].bytes.len() == r.size
    }
}

/// The bytes of the object a mapped handle is attached to.
pub open spec fn region_bytes(r: RegionModel, m: FacilityModel) -> Seq<u8> {
    m.objects[r.descriptor->Some_0].bytes
}

/// The facility state after the create-or-open step: unchanged if the name
/// is present, extended by an empty object of that name otherwise.
pub open spec fn after_create(m: FacilityModel, name: Seq<char>) -> FacilityModel {
    if has_object(m, name) {
        m
    } else {
        FacilityModel {
            objects: m.objects.push(ObjectModel { name: name, bytes: Seq::<u8>::empty() }),
            max_objects: m.max_objects,
            max_object_size: m.max_object_size,
        }
    }
}

/// The descriptor the create-or-open step hands out for `name`.
pub open spec fn create_descriptor(m: FacilityModel, name: Seq<char>) -> int {
    if has_object(m, name) {
        object_index(m, name)
    } else {
        m.objects.len() as int
    }
}

/// The facility state after a full open: the named object created if absent,
/// then resized to exactly `size` bytes.
pub open spec fn after_open(m: FacilityModel, name: Seq<char>, size: nat) -> FacilityModel {
    let m1 = after_create(m, name);
    let d = create_descriptor(m, name);
    FacilityModel {
        objects: m1.objects.update(
            d,
            ObjectModel { name: name, bytes: resize_bytes(m1.objects[d].bytes, size) },
        ),
        max_objects: m1.max_objects,
        max_object_size: m1.max_object_size,
    }
}

/// Exactly when an open of `name` at `size` succeeds against facility state
/// `m`: there is room for the object (or it already exists), the size is
/// within the facility's limit, and the mapping is not zero-length.
pub open spec fn open_succeeds(m: FacilityModel, name: Seq<char>, size: nat) -> bool {
    &&& has_object(m, name) || m.objects.len() < m.max_objects
    &&& size <= m.max_object_size
    &&& size > 0
}

/// A typed handle over a named shared-memory region.
///
/// The handle records a name and a byte size at construction, attaches to
/// the backing object of that name when opened against a facility, and then
/// reads and writes the payload type's byte image at the start of the
/// region. Independent handles opened with the same name against the same
/// facility address the same bytes.
pub struct POSIXShm<T: ShmValue> {
    file_path: String,
    mem_size: usize,
    descriptor: Option<usize>,
    mapped: bool,
    payload: PhantomData<T>,
}

impl<T: ShmValue> View for POSIXShm<T> {
    type V = RegionModel;

    closed spec fn view(&self) -> RegionModel {
        RegionModel {
            name: self.file_path@,
            size: self.mem_size as nat,
            descriptor: match self.descriptor {
                Some(d) => Some(d as int),
                None => None,
            },
            mapped: self.mapped,
        }
    }
}

impl<T: ShmValue> POSIXShm<T> {
    /// Handle well-formedness: a mapped handle carries a descriptor.
    pub open spec fn wf(self) -> bool {
        self@.mapped ==> self@.descriptor is Some
    }

    /// Records the rendezvous name and the requested byte size of the
    /// region. Pure value construction: no facility interaction and no
    /// failure mode; the handle starts unmapped, with no descriptor.
    pub fn new(path: String, size: usize) -> (r: POSIXShm<T>)
        ensures
            r.wf(),
            r@.name == path@,
            r@.size == size as nat,
            !r@.mapped,
            r@.descriptor is None,
    {
        POSIXShm {
            file_path: path,
            mem_size: size,
            descriptor: None,
            mapped: false,
            payload: PhantomData,
        }
    }

    /// Creates the backing object of the recorded name if absent or opens it
    /// if present, resizes it to exactly the recorded size (truncating or
    /// extending with zero bytes), and establishes the mapping.
    ///
    /// Succeeds exactly under `open_succeeds`; each failure keeps whatever
    /// partial progress the facility made (no rollback) and leaves the
    /// handle unmapped:
    /// - `CreationFailure` when the object is absent and the facility's
    ///   object table is full; the facility is untouched.
    /// - `ResizeFailure` when the recorded size exceeds the facility's
    ///   object-size limit; the object itself may just have been created.
    /// - `MappingFailure` when the recorded size is zero.
    pub fn open(&mut self, fac: &mut Facility) -> (r: Result<(), ShmError>)
        requires
            old(fac).wf(),
        ensures
            final(fac).wf(),
            final(self).wf(),
            final(self)@.name == old(self)@.name,
            final(self)@.size == old(self)@.size,
            region_valid(final(self)@, final(fac)@),
            final(fac)@.max_objects == old(fac)@.max_objects,
            final(fac)@.max_object_size == old(fac)@.max_object_size,
            r is Ok <==> open_succeeds(old(fac)@, old(self)@.name, old(self)@.size),
            match r {
                Ok(()) => {
                    &&& final(self)@.mapped
                    &&& final(self)@.descriptor == Some(
                        create_descriptor(old(fac)@, old(self)@.name),
                    )
                    &&& final(fac)@ == after_open(old(fac)@, old(self)@.name, old(self)@.size)
                },
                Err(e) => {
                    &&& !final(self)@.mapped
                    &&& match e {
                        ShmError::CreationFailure(code) => {
                            &&& !has_object(old(fac)@, old(self)@.name)
                            &&& old(fac)@.objects.len() >= old(fac)@.max_objects
                            &&& code == FACILITY_FULL
                            &&& final(fac)@ == old(fac)@
                            &&& final(self)@.descriptor is None
                        },
                        ShmError::ResizeFailure => {
                            &&& old(self)@.size > old(fac)@.max_object_size
                            &&& final(fac)@ == after_create(old(fac)@, old(self)@.name)
                            &&& final(self)@.descriptor == Some(
                                create_descriptor(old(fac)@, old(self)@.name),
                            )
                        },
                        ShmError::MappingFailure => {
                            &&& old(self)@.size == 0
                            &&& old(self)@.size <= old(fac)@.max_object_size
                            &&& final(fac)@ == after_open(
                                old(fac)@,
                                old(self)@.name,
                                old(self)@.size,
                            )
                            &&& final(self)@.descriptor == Some(
                                create_descriptor(old(fac)@, old(self)@.name),
                            )
                        },
                        ShmError::NotMapped => false,
                    }
                },
            },
    {
        self.mapped = false;
        let d = match fac.create_or_open(&self.file_path) {
            Ok(d) => d,
            Err(code) => {
                self.descriptor = None;
                return Err(ShmError::CreationFailure(code));
            },
        };
        self.descriptor = Some(d);
        proof {
            assert(fac@ == after_create(old(fac)@, old(self)@.name));
            assert(d as int == create_descriptor(old(fac)@, old(self)@.name));
        }
        match fac.resize(d, self.mem_size) {
            Ok(()) => {},
            Err(()) => {
                return Err(ShmError::ResizeFailure);
            },
        }
        proof {
            assert(fac@ == after_open(old(fac)@, old(self)@.name, old(self)@.size));
        }
        match fac.map_object(d, self.mem_size) {
            Ok(()) => {},
            Err(()) => {
                return Err(ShmError::MappingFailure);
            },
        }
        self.mapped = true;
        Ok(())
    }

    /// Reads the payload stored in the first `byte_width` bytes of the
    /// region. Fails with `NotMapped`, and only with it, exactly when no
    /// successful open has established the mapping.
    pub fn read(&self, fac: &Facility) -> (r: Result<T, ShmError>)
        requires
            region_valid(self@, fac@),
            self@.mapped ==> T::width() <= self@.size,
        ensures
            match r {
                Ok(v) => self@.mapped && v == typed_read::<T>(region_bytes(self@, fac@)),
                Err(e) => !self@.mapped && e == ShmError::NotMapped,
            },
    {
        if !self.mapped {
            return Err(ShmError::NotMapped);
        }
        match self.descriptor {
            Some(d) => {
                let w = T::byte_width();
                let bytes = fac.read_bytes(d, 0, w);
                let v = T::from_bytes(bytes.as_slice());
                proof {
                    assert(bytes@ == region_bytes(self@, fac@).take(T::width() as int));
                }
                Ok(v)
            },
            None => {
                proof {
                    assert(false);
                }
                Err(ShmError::NotMapped)
            },
        }
    }

    /// Overwrites the first `byte_width` bytes of the region with the byte
    /// image of `value`, keeping the rest. Fails with `NotMapped`, and only
    /// with it, exactly when no successful open has established the mapping.
    pub fn write(&self, fac: &mut Facility, value: T) -> (r: Result<(), ShmError>)
        requires
            old(fac).wf(),
            region_valid(self@, old(fac)@),
            self@.mapped ==> T::width() <= self@.size,
        ensures
            final(fac).wf(),
            preserves_layout(old(fac)@, final(fac)@),
            region_valid(self@, final(fac)@),
            match r {
                Ok(()) => {
                    &&& self@.mapped
                    &&& final(fac)@.objects == old(fac)@.objects.update(
                        self@.descriptor->Some_0,
                        ObjectModel {
                            name: self@.name,
                            bytes: store_bytes(
                                region_bytes(self@, old(fac)@),
                                0,
                                value.as_le_bytes(),
                            ),
                        },
                    )
                    &&& typed_read::<T>(region_bytes(self@, final(fac)@)) == value
                },
                Err(e) => {
                    &&& !self@.mapped
                    &&& e == ShmError::NotMapped
                    &&& final(fac)@ == old(fac)@
                },
            },
    {
        if !self.mapped {
            return Err(ShmError::NotMapped);
        }
        match self.descriptor {
            Some(d) => {
                fac.store(d, value);
                proof {
                    value.lemma_width();
                    value.lemma_round_trip();
                    let post = region_bytes(self@, fac@);
                    assert(post.take(T::width() as int) =~= value.as_le_bytes());
                }
                Ok(())
            },
            None => {
                proof {
                    assert(false);
                }
                Err(ShmError::NotMapped)
            },
        }
    }

    /// Sets the first `n` bytes of the region to `value`, keeping the rest.
    /// The caller must keep `n` within the region size. Fails with
    /// `NotMapped`, and only with it, exactly when no successful open has
    /// established the mapping.
    pub fn memset(&self, fac: &mut Facility, value: u8, n: usize) -> (r: Result<(), ShmError>)
        requires
            old(fac).wf(),
            region_valid(self@, old(fac)@),
            self@.mapped ==> n as nat <= self@.size,
        ensures
            final(fac).wf(),
            preserves_layout(old(fac)@, final(fac)@),
            region_valid(self@, final(fac)@),
            match r {
                Ok(()) => {
                    &&& self@.mapped
                    &&& final(fac)@.objects == old(fac)@.objects.update(
                        self@.descriptor->Some_0,
                        ObjectModel {
                            name: self@.name,
                            bytes: filled_bytes(region_bytes(self@, old(fac)@), value, n as nat),
                        },
                    )
                },
                Err(e) => {
                    &&& !self@.mapped
                    &&& e == ShmError::NotMapped
                    &&& final(fac)@ == old(fac)@
                },
            },
    {
        if !self.mapped {
            return Err(ShmError::NotMapped);
        }
        match self.descriptor {
            Some(d) => {
                fac.fill(d, value, n);
                Ok(())
            },
            None => {
                proof {
                    assert(false);
                }
                Err(ShmError::NotMapped)
            },
        }
    }

    /// Hands out the descriptor for direct byte access against the facility,
    /// the counterpart of handing out the mapped address: unset until a
    /// successful open has established the mapping.
    pub fn raw_descriptor(&self) -> (r: Option<usize>)
        requires
            self.wf(),
        ensures
            match r {
                Some(d) => self@.mapped && self@.descriptor == Some(d as int),
                None => !self@.mapped,
            },
    {
        if self.mapped {
            match self.descriptor {
                Some(d) => Some(d),
                None => {
                    proof {
                        assert(false);
                    }
                    None
                },
            }
        } else {
            None
        }
    }
}

} // verus!

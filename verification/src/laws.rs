use crate::facility::{fac_wf, filled_bytes, store_bytes, FacilityModel, ObjectModel};
use crate::region::{
    after_open, create_descriptor, open_succeeds, region_bytes, region_valid, RegionModel,
};
use crate::value::{typed_read, zero_bytes, ShmValue};
use vstd::prelude::*;

verus! {

/// Law: for every payload type and any size of at least the payload's width,
/// a successful open followed by a write of a payload makes the typed read
/// yield a value bit-identical to the one written.
pub proof fn lemma_open_write_then_read<T: ShmValue>(
    m: FacilityModel,
    name: Seq<char>,
    size: nat,
    value: T,
)
    requires
        open_succeeds(m, name, size),
        T::width() <= size,
    ensures
        ({
            let post = after_open(m, name, size);
            let handle = RegionModel {
                name: name,
                size: size,
                descriptor: Some(create_descriptor(m, name)),
                mapped: true,
            };
            &&& region_valid(handle, post)
            &&& typed_read::<T>(
                store_bytes(region_bytes(handle, post), 0, value.as_le_bytes()),
            ) == value
        }),
{
    let post = after_open(m, name, size);
    let handle = RegionModel {
        name: name,
        size: size,
        descriptor: Some(create_descriptor(m, name)),
        mapped: true,
    };
    assert(region_valid(handle, post));
    lemma_write_then_read::<T>(region_bytes(handle, post), value);
}

/// Law: writing a payload and then reading yields a value bit-identical to
/// the one written, for every payload type and any region of at least the
/// payload's width.
pub proof fn lemma_write_then_read<T: ShmValue>(bytes: Seq<u8>, value: T)
    requires
        T::width() <= bytes.len(),
    ensures
        typed_read::<T>(store_bytes(bytes, 0, value.as_le_bytes())) == value,
{
    value.lemma_width();
    value.lemma_round_trip();
    assert(store_bytes(bytes, 0, value.as_le_bytes()).take(T::width() as int)
        =~= value.as_le_bytes());
}

/// Law: filling at least the payload's width with zero bytes and then
/// reading yields the all-zero-bits value of the payload type.
pub proof fn lemma_fill_zero_then_read<T: ShmValue>(bytes: Seq<u8>, n: nat)
    requires
        T::width() <= n,
        n <= bytes.len(),
    ensures
        typed_read::<T>(filled_bytes(bytes, 0u8, n)) == T::zero(),
{
    T::lemma_zero_image();
    assert(filled_bytes(bytes, 0u8, n).take(T::width() as int) =~= zero_bytes(T::width()));
}

/// Law: a write through the raw byte-access path is observable through the
/// typed read — placing any byte block at the start of the region makes the
/// typed read decode exactly that block's leading bytes.
pub proof fn lemma_raw_write_then_read<T: ShmValue>(bytes: Seq<u8>, src: Seq<u8>)
    requires
        T::width() <= src.len(),
        src.len() <= bytes.len(),
    ensures
        typed_read::<T>(store_bytes(bytes, 0, src)) == T::of_le_bytes(
            src.take(T::width() as int),
        ),
{
    assert(store_bytes(bytes, 0, src).take(T::width() as int) =~= src.take(T::width() as int));
}

/// Law: a typed write is observable through the raw byte-access path — after
/// writing a payload, the first `width` bytes of the region read back as
/// exactly the payload's byte image.
pub proof fn lemma_write_then_raw_read<T: ShmValue>(bytes: Seq<u8>, value: T)
    requires
        T::width() <= bytes.len(),
    ensures
        store_bytes(bytes, 0, value.as_le_bytes()).take(T::width() as int)
            == value.as_le_bytes(),
{
    value.lemma_width();
    assert(store_bytes(bytes, 0, value.as_le_bytes()).take(T::width() as int)
        =~= value.as_le_bytes());
}

/// Law: two handles mapped against the same facility under the same name are
/// attached to the same object, so they observe the same bytes.
pub proof fn lemma_same_name_same_object(m: FacilityModel, a: RegionModel, b: RegionModel)
    requires
        fac_wf(m),
        region_valid(a, m),
        region_valid(b, m),
        a.mapped,
        b.mapped,
        a.name == b.name,
    ensures
        a.descriptor == b.descriptor,
        region_bytes(a, m) == region_bytes(b, m),
{
    let i = a.descriptor->Some_0;
    let j = b.descriptor->Some_0;
    if i != j {
        assert(m.objects[i].name != m.objects[j].name);
    }
}

/// Law: cross-handle visibility — after one handle writes a payload, a
/// second handle mapped under the same name against the same facility reads
/// that payload back.
pub proof fn lemma_cross_handle_visibility<T: ShmValue>(
    m: FacilityModel,
    a: RegionModel,
    b: RegionModel,
    value: T,
)
    requires
        fac_wf(m),
        region_valid(a, m),
        region_valid(b, m),
        a.mapped,
        b.mapped,
        a.name == b.name,
        T::width() <= a.size,
    ensures
        ({
            let post = FacilityModel {
                objects: m.objects.update(
                    a.descriptor->Some_0,
                    ObjectModel {
                        name: a.name,
                        bytes: store_bytes(region_bytes(a, m), 0, value.as_le_bytes()),
                    },
                ),
                max_objects: m.max_objects,
                max_object_size: m.max_object_size,
            };
            typed_read::<T>(region_bytes(b, post)) == value
        }),
{
    lemma_same_name_same_object(m, a, b);
    lemma_write_then_read::<T>(region_bytes(a, m), value);
}

} // verus!

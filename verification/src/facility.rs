use crate::value::ShmValue;
use vstd::prelude::*;
use vstd::slice::slice_index_get;

verus! {

/// Model of one shared object: its rendezvous name and its bytes.
pub ghost struct ObjectModel {
    pub name: Seq<char>,
    pub bytes: Seq<u8>,
}

/// Model of the whole facility: the objects it holds, in creation order,
/// and the limits it was brought up with.
pub ghost struct FacilityModel {
    pub objects: Seq<ObjectModel>,
    pub max_objects: nat,
    pub max_object_size: nat,
}

/// Whether the facility holds an object of the given name.
pub open spec fn has_object(m: FacilityModel, name: Seq<char>) -> bool {
    exists|i: int| 0 <= i < m.objects.len() && m.objects[i].name == name
}

/// The index of the object of the given name (meaningful only when present).
pub open spec fn object_index(m: FacilityModel, name: Seq<char>) -> int {
    choose|i: int| 0 <= i < m.objects.len() && m.objects[i].name == name
}

/// Well-formedness of a facility model: object names are pairwise distinct
/// and no object is larger than the facility's object-size limit.
pub open spec fn fac_wf(m: FacilityModel) -> bool {
    &&& forall|i: int, j: int|
        #![trigger m.objects[i].name, m.objects[j].name]
        0 <= i < m.objects.len() && 0 <= j < m.objects.len() && i != j
            ==> m.objects[i].name != m.objects[j].name
    &&& forall|i: int|
        0 <= i < m.objects.len() ==> #[trigger] m.objects[i].bytes.len() <= m.max_object_size
}

/// Under well-formedness, at most one object bears a given name, so any
/// matching index is the object's index.
pub proof fn lemma_object_index_unique(m: FacilityModel, name: Seq<char>, d: int)
    requires
        fac_wf(m),
        0 <= d < m.objects.len(),
        m.objects[d].name == name,
    ensures
        has_object(m, name),
        object_index(m, name) == d,
{
    assert(has_object(m, name));
    let j = object_index(m, name);
    if j != d {
        assert(m.objects[j].name != m.objects[d].name);
    }
}

/// `bytes` resized to exactly `len` bytes: truncated, or extended with
/// zero bytes.
pub open spec fn resize_bytes(bytes: Seq<u8>, len: nat) -> Seq<u8> {
    Seq::new(
        len as nat,
        |i: int|
            if i < bytes.len() {
                bytes[i]
            } else {
                0u8
            },
    )
}

/// `bytes` with `src` written at `offset` and every other byte kept.
pub open spec fn store_bytes(bytes: Seq<u8>, offset: int, src: Seq<u8>) -> Seq<u8> {
    Seq::new(
        bytes.len(),
        |i: int|
            if offset <= i < offset + src.len() {
                src[i - offset]
            } else {
                bytes[i]
            },
    )
}

/// `bytes` with its first `n` bytes set to `value` and the rest kept.
pub open spec fn filled_bytes(bytes: Seq<u8>, value: u8, n: nat) -> Seq<u8> {
    Seq::new(
        bytes.len(),
        |i: int|
            if i < n {
                value
            } else {
                bytes[i]
            },
    )
}

/// Layout preservation between two facility states: the same number of
/// objects, under the same names, with the same lengths, under the same
/// limits. Byte-level writes preserve the layout, so every handle that was
/// attached stays attached.
pub open spec fn preserves_layout(pre: FacilityModel, post: FacilityModel) -> bool {
    &&& post.objects.len() == pre.objects.len()
    &&& post.max_objects == pre.max_objects
    &&& post.max_object_size == pre.max_object_size
    &&& forall|i: int|
        0 <= i < pre.objects.len() ==> #[trigger] post.objects[i].name == pre.objects[i].name
    &&& forall|i: int|
        0 <= i < pre.objects.len() ==> #[trigger] post.objects[i].bytes.len()
            == pre.objects[i].bytes.len()
}

proof fn lemma_wf_after_update(pre: FacilityModel, post: FacilityModel, d: int, nb: Seq<u8>)
    requires
        fac_wf(pre),
        0 <= d < pre.objects.len(),
        post.max_objects == pre.max_objects,
        post.max_object_size == pre.max_object_size,
        post.objects == pre.objects.update(
            d,
            ObjectModel { name: pre.objects[d].name, bytes: nb },
        ),
        nb.len() <= pre.max_object_size,
    ensures
        fac_wf(post),
{
    assert(forall|i: int|
        0 <= i < post.objects.len() ==> #[trigger] post.objects[i].name == pre.objects[i].name);
}

/// Code reported when the facility cannot create another object because its
/// object table is already full.
pub const FACILITY_FULL: i32 = 28;

struct SharedObject {
    name: String,
    bytes: Vec<u8>,
}

spec fn obj_model(o: SharedObject) -> ObjectModel {
    ObjectModel { name: o.name@, bytes: o.bytes@ }
}

/// An in-process shared-memory facility: the capability that region handles
/// are opened against. It offers create-or-open, resize, mapping and
/// byte-level access over named byte objects, with explicit limits standing
/// in for the resource limits of a real host.
pub struct Facility {
    objects: Vec<SharedObject>,
    max_objects: usize,
    max_object_size: usize,
}

impl View for Facility {
    type V = FacilityModel;

    closed spec fn view(&self) -> FacilityModel {
        FacilityModel {
            objects: self.objects@.map_values(|o: SharedObject| obj_model(o)),
            max_objects: self.max_objects as nat,
            max_object_size: self.max_object_size as nat,
        }
    }
}

impl Facility {
    /// Well-formedness of the facility (see `fac_wf`).
    pub open spec fn wf(self) -> bool {
        fac_wf(self@)
    }

    /// Brings up an empty facility with the given limits.
    pub fn new(max_objects: usize, max_object_size: usize) -> (f: Facility)
        ensures
            f.wf(),
            f@.objects == Seq::<ObjectModel>::empty(),
            f@.max_objects == max_objects as nat,
            f@.max_object_size == max_object_size as nat,
    {
        let f = Facility { objects: Vec::new(), max_objects, max_object_size };
        proof {
            assert(f@.objects =~= Seq::<ObjectModel>::empty());
        }
        f
    }

    fn find_object(&self, name: &String) -> (r: Option<usize>)
        ensures
            match r {
                Some(d) => d < self@.objects.len() && self@.objects[d as int].name == name@,
                None => !has_object(self@, name@),
            },
    {
        let n = self.objects.len();
        let mut i: usize = 0;
        while i < n
            invariant
                i <= n,
                n == self.objects.len(),
                forall|j: int| 0 <= j < i ==> self@.objects[j].name != name@,
            decreases n - i,
        {
            if self.objects[i].name == *name {
                return Some(i);
            }
            i += 1;
        }
        None
    }

    /// Creates the named object if absent, or opens it if present, and
    /// returns its descriptor. Fails, with the facility untouched and
    /// `FACILITY_FULL` reported, exactly when the name is absent and the
    /// object table is already at its limit.
    pub fn create_or_open(&mut self, name: &String) -> (r: Result<usize, i32>)
        requires
            old(self).wf(),
        ensures
            final(self).wf(),
            final(self)@.max_objects == old(self)@.max_objects,
            final(self)@.max_object_size == old(self)@.max_object_size,
            match r {
                Ok(d) => {
                    &&& d < final(self)@.objects.len()
                    &&& final(self)@.objects[d as int].name == name@
                    &&& if has_object(old(self)@, name@) {
                        &&& final(self)@ == old(self)@
                        &&& d as int == object_index(old(self)@, name@)
                    } else {
                        &&& final(self)@.objects == old(self)@.objects.push(
                            ObjectModel { name: name@, bytes: Seq::<u8>::empty() },
                        )
                        &&& d as int == old(self)@.objects.len()
                    }
                },
                Err(code) => {
                    &&& final(self)@ == old(self)@
                    &&& !has_object(old(self)@, name@)
                    &&& old(self)@.objects.len() >= old(self)@.max_objects
                    &&& code == FACILITY_FULL
                },
            },
            r is Err <==> (!has_object(old(self)@, name@) && old(self)@.objects.len() >= old(
                self,
            )@.max_objects),
    {
        match self.find_object(name) {
            Some(d) => {
                proof {
                    lemma_object_index_unique(self@, name@, d as int);
                }
                Ok(d)
            },
            None => {
                let n = self.objects.len();
                if n < self.max_objects {
                    let obj = SharedObject { name: name.clone(), bytes: Vec::new() };
                    self.objects.push(obj);
                    proof {
                        assert(self@.objects =~= old(self)@.objects.push(
                            ObjectModel { name: name@, bytes: Seq::<u8>::empty() },
                        ));
                        assert(self.wf()) by {
                            assert(forall|i: int|
                                0 <= i < old(self)@.objects.len()
                                    ==> #[trigger] self@.objects[i] == old(self)@.objects[i]);
                        }
                    }
                    Ok(n)
                } else {
                    Err(FACILITY_FULL)
                }
            },
        }
    }

    /// Establishes a mapping of `len` bytes of object `d`. The model keeps
    /// no per-process address, so this only decides whether the mapping
    /// request is acceptable: a zero-length mapping is refused.
    pub fn map_object(&self, d: usize, len: usize) -> (r: Result<(), ()>)
        requires
            d < self@.objects.len(),
        ensures
            r is Ok <==> len > 0,
    {
        if len > 0 {
            Ok(())
        } else {
            Err(())
        }
    }

    fn set_object_bytes(&mut self, d: usize, nb: Vec<u8>)
        requires
            d < old(self)@.objects.len(),
        ensures
            final(self)@.objects == old(self)@.objects.update(
                d as int,
                ObjectModel { name: old(self)@.objects[d as int].name, bytes: nb@ },
            ),
            final(self)@.max_objects == old(self)@.max_objects,
            final(self)@.max_object_size == old(self)@.max_object_size,
    {
        let name_copy = self.objects[d].name.clone();
        self.objects[d] = SharedObject { name: name_copy, bytes: nb };
        proof {
            assert(self@.objects =~= old(self)@.objects.update(
                d as int,
                ObjectModel { name: old(self)@.objects[d as int].name, bytes: nb@ },
            ));
        }
    }

    /// Resizes object `d` to exactly `len` bytes, truncating it or extending
    /// it with zero bytes. Fails, leaving the facility untouched, exactly
    /// when `len` exceeds the facility's object-size limit.
    pub fn resize(&mut self, d: usize, len: usize) -> (r: Result<(), ()>)
        requires
            old(self).wf(),
            d < old(self)@.objects.len(),
        ensures
            final(self).wf(),
            final(self)@.max_objects == old(self)@.max_objects,
            final(self)@.max_object_size == old(self)@.max_object_size,
            r is Ok <==> len as nat <= old(self)@.max_object_size,
            r is Ok ==> final(self)@.objects == old(self)@.objects.update(
                d as int,
                ObjectModel {
                    name: old(self)@.objects[d as int].name,
                    bytes: resize_bytes(old(self)@.objects[d as int].bytes, len as nat),
                },
            ),
            r is Err ==> final(self)@ == old(self)@,
    {
        if len > self.max_object_size {
            return Err(());
        }
        let ghost target = resize_bytes(self@.objects[d as int].bytes, len as nat);
        let n = self.objects[d].bytes.len();
        let mut nb: Vec<u8> = Vec::new();
        let mut i: usize = 0;
        while i < len
            invariant
                i <= len,
                d < self.objects@.len(),
                n == self@.objects[d as int].bytes.len(),
                target == resize_bytes(self@.objects[d as int].bytes, len as nat),
                nb@ =~= target.take(i as int),
            decreases len - i,
        {
            if i < n {
                let b = self.objects[d].bytes[i];
                nb.push(b);
            } else {
                nb.push(0u8);
            }
            i += 1;
        }
        proof {
            assert(nb@ =~= target);
        }
        self.set_object_bytes(d, nb);
        proof {
            lemma_wf_after_update(old(self)@, self@, d as int, target);
        }
        Ok(())
    }

    /// Reads `len` bytes of object `d` starting at `offset`.
    pub fn read_bytes(&self, d: usize, offset: usize, len: usize) -> (v: Vec<u8>)
        requires
            d < self@.objects.len(),
            offset + len <= self@.objects[d as int].bytes.len(),
        ensures
            v@ == self@.objects[d as int].bytes.subrange(offset as int, offset as int + len as int),
    {
        let n = self.objects[d].bytes.len();
        let mut v: Vec<u8> = Vec::new();
        let mut i: usize = 0;
        while i < len
            invariant
                i <= len,
                d < self.objects@.len(),
                n == self@.objects[d as int].bytes.len(),
                offset + len <= n,
                v@ =~= self@.objects[d as int].bytes.subrange(
                    offset as int,
                    offset as int + i as int,
                ),
            decreases len - i,
        {
            let b = self.objects[d].bytes[offset + i];
            v.push(b);
            i += 1;
        }
        proof {
            assert(v@ =~= self@.objects[d as int].bytes.subrange(
                offset as int,
                offset as int + len as int,
            ));
        }
        v
    }

    /// Writes the bytes of `src` into object `d` starting at `offset`,
    /// keeping every other byte: the untyped direct-access path.
    pub fn write_bytes(&mut self, d: usize, offset: usize, src: &[u8])
        requires
            old(self).wf(),
            d < old(self)@.objects.len(),
            offset + src@.len() <= old(self)@.objects[d as int].bytes.len(),
        ensures
            final(self).wf(),
            preserves_layout(old(self)@, final(self)@),
            final(self)@.objects == old(self)@.objects.update(
                d as int,
                ObjectModel {
                    name: old(self)@.objects[d as int].name,
                    bytes: store_bytes(
                        old(self)@.objects[d as int].bytes,
                        offset as int,
                        src@,
                    ),
                },
            ),
    {
        let ghost target = store_bytes(self@.objects[d as int].bytes, offset as int, src@);
        let n = self.objects[d].bytes.len();
        let mut nb: Vec<u8> = Vec::new();
        let mut i: usize = 0;
        while i < n
            invariant
                i <= n,
                d < self.objects@.len(),
                n == self@.objects[d as int].bytes.len(),
                offset + src@.len() <= n,
                target == store_bytes(self@.objects[d as int].bytes, offset as int, src@),
                nb@ =~= target.take(i as int),
            decreases n - i,
        {
            if offset <= i && i < offset + src.len() {
                let b = *slice_index_get(src, i - offset);
                nb.push(b);
            } else {
                let b = self.objects[d].bytes[i];
                nb.push(b);
            }
            i += 1;
        }
        proof {
            assert(nb@ =~= target);
        }
        self.set_object_bytes(d, nb);
        proof {
            lemma_wf_after_update(old(self)@, self@, d as int, target);
            assert(preserves_layout(old(self)@, self@)) by {
                assert(forall|k: int|
                    0 <= k < old(self)@.objects.len() && k != d ==> #[trigger] self@.objects[k]
                        == old(self)@.objects[k]);
            }
        }
    }

    /// Sets the first `n` bytes of object `d` to `value`, keeping the rest:
    /// the facility's fill-memory primitive.
    pub fn fill(&mut self, d: usize, value: u8, n: usize)
        requires
            old(self).wf(),
            d < old(self)@.objects.len(),
            n <= old(self)@.objects[d as int].bytes.len(),
        ensures
            final(self).wf(),
            preserves_layout(old(self)@, final(self)@),
            final(self)@.objects == old(self)@.objects.update(
                d as int,
                ObjectModel {
                    name: old(self)@.objects[d as int].name,
                    bytes: filled_bytes(old(self)@.objects[d as int].bytes, value, n as nat),
                },
            ),
    {
        let ghost target = filled_bytes(self@.objects[d as int].bytes, value, n as nat);
        let total = self.objects[d].bytes.len();
        let mut nb: Vec<u8> = Vec::new();
        let mut i: usize = 0;
        while i < total
            invariant
                i <= total,
                d < self.objects@.len(),
                total == self@.objects[d as int].bytes.len(),
                n <= total,
                target == filled_bytes(self@.objects[d as int].bytes, value, n as nat),
                nb@ =~= target.take(i as int),
            decreases total - i,
        {
            if i < n {
                nb.push(value);
            } else {
                let b = self.objects[d].bytes[i];
                nb.push(b);
            }
            i += 1;
        }
        proof {
            assert(nb@ =~= target);
        }
        self.set_object_bytes(d, nb);
        proof {
            lemma_wf_after_update(old(self)@, self@, d as int, target);
            assert(preserves_layout(old(self)@, self@)) by {
                assert(forall|k: int|
                    0 <= k < old(self)@.objects.len() && k != d ==> #[trigger] self@.objects[k]
                        == old(self)@.objects[k]);
            }
        }
    }

    /// Writes the byte image of `value` at the start of object `d`,
    /// bypassing any region handle: the typed direct-access path.
    pub fn store<T: ShmValue>(&mut self, d: usize, value: T)
        requires
            old(self).wf(),
            d < old(self)@.objects.len(),
            T::width() <= old(self)@.objects[d as int].bytes.len(),
        ensures
            final(self).wf(),
            preserves_layout(old(self)@, final(self)@),
            final(self)@.objects == old(self)@.objects.update(
                d as int,
                ObjectModel {
                    name: old(self)@.objects[d as int].name,
                    bytes: store_bytes(
                        old(self)@.objects[d as int].bytes,
                        0,
                        value.as_le_bytes(),
                    ),
                },
            ),
    {
        proof {
            value.lemma_width();
        }
        let img = value.to_bytes();
        self.write_bytes(d, 0, img.as_slice());
    }
}

} // verus!
